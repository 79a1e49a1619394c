//! Taking a request to download a URL: checking it, reading what the probe
//! found, leaving out what the history knows, and queueing the rest.

use vstd::prelude::*;
use crate::config::Limits;
use crate::history::{normalized, HistoryManager, HistoryMessage, HistoryMessageView};
use crate::ids::{fresh_job_id, is_random_uuid};
use crate::invariants::{well_formed, within_limits};
use crate::json::{
    array_field, json_array_at, json_parse_error, json_string_at, parse_error, string_field,
};
use crate::manager::{
    after_add, effect_views, AddJobReply, Effect, EffectView, JobManager, ManagerView,
};
use crate::models::{
    clone_opt, entry_views, opt_view, DownloadFormatPreset, JobId, PlaylistEntry,
    PlaylistEntryView, QueuedJob, QueuedJobView, StartDownloadResponse,
};
use crate::text::{
    chars_of, concat, contains, contains_text, has_prefix, same_text, starts_with, trim, trimmed,
    views,
};

verus! {

/// How many probes may run at once.
pub const PROBE_CONCURRENCY: u32 = 3;

/// The template for output files where the request gives none.
pub open spec fn default_template() -> Seq<char> {
    "%(title)s.%(ext)s"@
}

/// Why a request was turned down.
#[derive(Debug)]
pub enum AppError {
    IoError(String),
    ProcessFailed { exit_code: i32, stderr: String },
    ValidationFailed(String),
}

pub ghost enum AppErrorView {
    IoError(Seq<char>),
    ProcessFailed { exit_code: i32, stderr: Seq<char> },
    ValidationFailed(Seq<char>),
}

impl View for AppError {
    type V = AppErrorView;

    open spec fn view(&self) -> AppErrorView {
        match *self {
            AppError::IoError(e) => AppErrorView::IoError(e@),
            AppError::ProcessFailed { exit_code, stderr } => AppErrorView::ProcessFailed {
                exit_code,
                stderr: stderr@,
            },
            AppError::ValidationFailed(e) => AppErrorView::ValidationFailed(e@),
        }
    }
}

/// Whether a URL is one of the web.
pub open spec fn is_web_url(url: Seq<char>) -> bool {
    has_prefix(url, "http://"@) || has_prefix(url, "https://"@)
}

/// Whether a template could write outside the directory it is given: it
/// steps up, or it starts at a root.
pub open spec fn is_unsafe_template(template: Seq<char>) -> bool {
    contains_text(template, ".."@) || has_prefix(template, "/"@) || has_prefix(template, "\\"@)
}

/// The template under which a request is carried out, or why it is turned down.
pub open spec fn request_verdict(url: Seq<char>, template: Seq<char>) -> Result<
    Seq<char>,
    AppErrorView,
> {
    if !is_web_url(url) {
        Err(AppErrorView::ValidationFailed("Invalid URL provided."@))
    } else if trimmed(template).len() == 0 {
        Ok(default_template())
    } else if is_unsafe_template(template) {
        Err(AppErrorView::ValidationFailed("Invalid characters in filename template."@))
    } else {
        Ok(template)
    }
}

/// The view of a result that carries a string.
pub open spec fn text_result_view(r: Result<String, AppError>) -> Result<Seq<char>, AppErrorView> {
    match r {
        Ok(s) => Ok(s@),
        Err(e) => Err(e@),
    }
}

fn begins_with(text: &[char], prefix: &str) -> (r: bool)
    ensures
        r == has_prefix(text@, prefix@),
{
    let p = chars_of(prefix);
    starts_with(text, p.as_slice())
}

/// Checks the URL and the template of a request.
pub fn validate_request(url: &str, filename_template: &str) -> (r: Result<String, AppError>)
    ensures
        text_result_view(r) == request_verdict(url@, filename_template@),
{
    let u = chars_of(url);
    if !begins_with(u.as_slice(), "http://") && !begins_with(u.as_slice(), "https://") {
        return Err(AppError::ValidationFailed("Invalid URL provided.".to_owned()));
    }
    let t = chars_of(filename_template);
    let kept = trim(t.as_slice());
    if kept.len() == 0 {
        return Ok("%(title)s.%(ext)s".to_owned());
    }
    let dots = chars_of("..");
    if contains(t.as_slice(), dots.as_slice()) || begins_with(t.as_slice(), "/") || begins_with(
        t.as_slice(),
        "\\",
    ) {
        return Err(
            AppError::ValidationFailed("Invalid characters in filename template.".to_owned()),
        );
    }
    Ok(filename_template.to_owned())
}

/// The entry that three fields of a record make: a missing URL is made up
/// for by `fallback_url`, a missing title by `Unknown`.
pub open spec fn entry_from(
    id: Option<Seq<char>>,
    url: Option<Seq<char>>,
    title: Option<Seq<char>>,
    fallback_url: Seq<char>,
) -> PlaylistEntryView {
    PlaylistEntryView {
        id,
        url: match url {
            Some(u) => u,
            None => fallback_url,
        },
        title: match title {
            Some(t) => t,
            None => "Unknown"@,
        },
    }
}

/// Makes an entry of three fields of a record.
pub fn make_entry(
    id: Option<String>,
    url: Option<String>,
    title: Option<String>,
    fallback_url: &str,
) -> (entry: PlaylistEntry)
    ensures
        entry@ == entry_from(opt_view(id), opt_view(url), opt_view(title), fallback_url@),
{
    PlaylistEntry {
        id,
        url: match url {
            Some(u) => u,
            None => fallback_url.to_owned(),
        },
        title: match title {
            Some(t) => t,
            None => "Unknown".to_owned(),
        },
    }
}

/// The entry that one element of a playlist stands for.
pub open spec fn item_entry(item: Seq<char>, url: Seq<char>) -> PlaylistEntryView {
    entry_from(
        json_string_at(item, "id"@),
        json_string_at(item, "url"@),
        json_string_at(item, "title"@),
        url,
    )
}

/// The entries that the elements of a playlist stand for, one each.
pub open spec fn item_entries(items: Seq<Seq<char>>, url: Seq<char>) -> Seq<PlaylistEntryView>
    decreases items.len(),
{
    if items.len() == 0 {
        Seq::empty()
    } else {
        item_entries(items.drop_last(), url).push(item_entry(items.last(), url))
    }
}

/// The one entry that a record without a playlist stands for.
pub open spec fn single_entry(doc: Seq<char>, url: Seq<char>) -> PlaylistEntryView {
    entry_from(
        json_string_at(doc, "id"@),
        json_string_at(doc, "webpage_url"@),
        json_string_at(doc, "title"@),
        url,
    )
}

/// What the output of a probe of `url` holds.
pub open spec fn probe_entries(doc: Seq<char>, url: Seq<char>) -> Result<
    Seq<PlaylistEntryView>,
    AppErrorView,
> {
    match json_parse_error(doc) {
        Some(reason) => Err(AppErrorView::ValidationFailed("Failed to parse JSON: "@ + reason)),
        None => match json_array_at(doc, "entries"@) {
            Some(items) => Ok(item_entries(items, url)),
            None => Ok(seq![single_entry(doc, url)]),
        },
    }
}

/// What a finished probe of `url` found.
pub open spec fn probe_outcome(
    succeeded: bool,
    exit_code: Option<i32>,
    stdout: Seq<char>,
    stderr: Seq<char>,
    url: Seq<char>,
) -> Result<Seq<PlaylistEntryView>, AppErrorView> {
    if succeeded {
        probe_entries(stdout, url)
    } else {
        Err(
            AppErrorView::ProcessFailed {
                exit_code: match exit_code {
                    Some(code) => code,
                    None => -1i32,
                },
                stderr,
            },
        )
    }
}

/// The view of a result that carries entries.
pub open spec fn entries_result_view(r: Result<Vec<PlaylistEntry>, AppError>) -> Result<
    Seq<PlaylistEntryView>,
    AppErrorView,
> {
    match r {
        Ok(v) => Ok(entry_views(v@)),
        Err(e) => Err(e@),
    }
}

/// Reads the output of a probe of `url`.
pub fn parse_probe_output(stdout: &str, url: &str) -> (r: Result<Vec<PlaylistEntry>, AppError>)
    ensures
        entries_result_view(r) == probe_entries(stdout@, url@),
{
    match parse_error(stdout) {
        Some(reason) => {
            return Err(
                AppError::ValidationFailed(concat("Failed to parse JSON: ", reason.as_str())),
            );
        },
        None => {},
    }
    let mut entries: Vec<PlaylistEntry> = Vec::new();
    match array_field(stdout, "entries") {
        Some(items) => {
            let mut i: usize = 0;
            assert(entry_views(entries@) =~= Seq::empty());
            while i < items.len()
                invariant
                    i <= items.len(),
                    entry_views(entries@) == item_entries(views(items@).take(i as int), url@),
                decreases items.len() - i,
            {
                let ghost done = entry_views(entries@);
                proof {
                    assert(views(items@).take(i + 1).drop_last() =~= views(items@).take(i as int));
                }
                let item = items[i].as_str();
                let entry = make_entry(
                    string_field(item, "id"),
                    string_field(item, "url"),
                    string_field(item, "title"),
                    url,
                );
                entries.push(entry);
                assert(entry_views(entries@) =~= done.push(item_entry(items@[i as int]@, url@)));
                i = i + 1;
            }
            assert(views(items@).take(items.len() as int) =~= views(items@));
        },
        None => {
            let entry = make_entry(
                string_field(stdout, "id"),
                string_field(stdout, "webpage_url"),
                string_field(stdout, "title"),
                url,
            );
            entries.push(entry);
            assert(entry_views(entries@) =~= seq![single_entry(stdout@, url@)]);
        },
    }
    Ok(entries)
}

/// Tells what a finished probe of `url` found: the entries, or why there are none.
pub fn probe_url(succeeded: bool, exit_code: Option<i32>, stdout: &str, stderr: &str, url: &str) -> (r:
    Result<Vec<PlaylistEntry>, AppError>)
    ensures
        entries_result_view(r) == probe_outcome(succeeded, exit_code, stdout@, stderr@, url@),
{
    if succeeded {
        parse_probe_output(stdout, url)
    } else {
        Err(
            AppError::ProcessFailed {
                exit_code: match exit_code {
                    Some(code) => code,
                    None => -1,
                },
                stderr: stderr.to_owned(),
            },
        )
    }
}

/// What a probe found, as handed to the host.
pub fn expand_playlist(succeeded: bool, exit_code: Option<i32>, stdout: &str, stderr: &str, url: &str) -> (r:
    Result<crate::models::PlaylistResult, AppError>)
    ensures
        (match r {
            Ok(found) => Ok(entry_views(found.entries@)),
            Err(e) => Err(e@),
        }) == probe_outcome(succeeded, exit_code, stdout@, stderr@, url@),
{
    match probe_url(succeeded, exit_code, stdout, stderr, url) {
        Ok(entries) => Ok(crate::models::PlaylistResult { entries }),
        Err(e) => Err(e),
    }
}

/// The counter that keeps the number of running probes at or below
/// [`PROBE_CONCURRENCY`].
#[derive(Debug)]
pub struct ProbeLimiter {
    in_flight: u32,
}

impl ProbeLimiter {
    /// Probes running now.
    pub closed spec fn in_flight(&self) -> u32 {
        self.in_flight
    }

    /// No more probes run than the limit allows.
    #[verifier::type_invariant]
    spec fn within_limit(&self) -> bool {
        self.in_flight <= PROBE_CONCURRENCY
    }

    /// A counter with no probe running.
    pub fn new() -> (limiter: Self)
        ensures
            limiter.in_flight() == 0,
    {
        ProbeLimiter { in_flight: 0 }
    }

    /// Lets one more probe through if fewer than the limit are running.
    pub fn try_enter(&mut self) -> (entered: bool)
        ensures
            final(self).in_flight() <= PROBE_CONCURRENCY,
            entered == (old(self).in_flight() < PROBE_CONCURRENCY),
            final(self).in_flight() == if entered {
                old(self).in_flight() + 1
            } else {
                old(self).in_flight() as int
            },
    {
        proof {
            use_type_invariant(&*self);
        }
        if self.in_flight < PROBE_CONCURRENCY {
            self.in_flight = self.in_flight + 1;
            true
        } else {
            false
        }
    }

    /// Notes that a probe has ended.
    pub fn leave(&mut self)
        ensures
            final(self).in_flight() <= PROBE_CONCURRENCY,
            final(self).in_flight() == if old(self).in_flight() > 0 {
                old(self).in_flight() - 1
            } else {
                0
            },
    {
        proof {
            use_type_invariant(&*self);
        }
        if self.in_flight > 0 {
            self.in_flight = self.in_flight - 1;
        }
    }
}

/// A request to download what a URL stands for.
#[derive(Debug)]
pub struct DownloadRequest {
    pub url: String,
    pub download_path: Option<String>,
    pub format_preset: DownloadFormatPreset,
    pub video_resolution: String,
    pub embed_metadata: bool,
    pub embed_thumbnail: bool,
    pub filename_template: String,
    pub restrict_filenames: Option<bool>,
    pub live_from_start: Option<bool>,
    /// Download also what the history knows.
    pub force_download: Option<bool>,
    /// Where given, only entries with one of these URLs are downloaded.
    pub url_whitelist: Option<Vec<String>>,
}

pub ghost struct DownloadRequestView {
    pub url: Seq<char>,
    pub download_path: Option<Seq<char>>,
    pub format_preset: DownloadFormatPreset,
    pub video_resolution: Seq<char>,
    pub embed_metadata: bool,
    pub embed_thumbnail: bool,
    pub filename_template: Seq<char>,
    pub restrict_filenames: Option<bool>,
    pub live_from_start: Option<bool>,
    pub force_download: Option<bool>,
    pub url_whitelist: Option<Seq<Seq<char>>>,
}

impl View for DownloadRequest {
    type V = DownloadRequestView;

    open spec fn view(&self) -> DownloadRequestView {
        DownloadRequestView {
            url: self.url@,
            download_path: opt_view(self.download_path),
            format_preset: self.format_preset,
            video_resolution: self.video_resolution@,
            embed_metadata: self.embed_metadata,
            embed_thumbnail: self.embed_thumbnail,
            filename_template: self.filename_template@,
            restrict_filenames: self.restrict_filenames,
            live_from_start: self.live_from_start,
            force_download: self.force_download,
            url_whitelist: crate::json::opt_views(self.url_whitelist),
        }
    }
}

/// Whether a request asks for what the history knows, too.
pub open spec fn is_forced(request: DownloadRequestView) -> bool {
    request.force_download == Some(true)
}

/// Whether a URL gets past the whitelist of a request.
pub open spec fn is_listed(request: DownloadRequestView, url: Seq<char>) -> bool {
    match request.url_whitelist {
        Some(list) => list.contains(url),
        None => true,
    }
}

/// Whether an entry is left out because the history knows it.
pub open spec fn is_skipped(request: DownloadRequestView, known: Set<Seq<char>>, url: Seq<char>) -> bool {
    is_listed(request, url) && !is_forced(request) && known.contains(normalized(url))
}

/// Whether an entry is to be queued.
pub open spec fn is_wanted(request: DownloadRequestView, known: Set<Seq<char>>, url: Seq<char>) -> bool {
    is_listed(request, url) && !is_skipped(request, known, url)
}

/// The URLs of the entries that are left out because the history knows
/// them, in order.
pub open spec fn skipped_urls(
    request: DownloadRequestView,
    known: Set<Seq<char>>,
    entries: Seq<PlaylistEntryView>,
) -> Seq<Seq<char>>
    decreases entries.len(),
{
    if entries.len() == 0 {
        Seq::empty()
    } else if is_skipped(request, known, entries.last().url) {
        skipped_urls(request, known, entries.drop_last()).push(entries.last().url)
    } else {
        skipped_urls(request, known, entries.drop_last())
    }
}

/// The entries that are to be queued, in order.
pub open spec fn wanted_entries(
    request: DownloadRequestView,
    known: Set<Seq<char>>,
    entries: Seq<PlaylistEntryView>,
) -> Seq<PlaylistEntryView>
    decreases entries.len(),
{
    if entries.len() == 0 {
        Seq::empty()
    } else if is_wanted(request, known, entries.last().url) {
        wanted_entries(request, known, entries.drop_last()).push(entries.last())
    } else {
        wanted_entries(request, known, entries.drop_last())
    }
}

/// The declaration of the job for one entry of a request.
pub open spec fn declared(
    request: DownloadRequestView,
    template: Seq<char>,
    url: Seq<char>,
    id: JobId,
) -> QueuedJobView {
    QueuedJobView {
        id,
        url,
        download_path: request.download_path,
        format_preset: request.format_preset,
        video_resolution: request.video_resolution,
        embed_metadata: request.embed_metadata,
        embed_thumbnail: request.embed_thumbnail,
        filename_template: template,
        restrict_filenames: request.restrict_filenames == Some(true),
        live_from_start: request.live_from_start == Some(true),
        status: None,
        error: None,
        stderr: None,
    }
}

/// What the entries to be queued come to, given one identifier for each.
pub ghost struct Submitted {
    pub manager: ManagerView,
    /// What the manager asks to be done, answers left out.
    pub effects: Seq<EffectView>,
    /// The identifiers of the jobs that the manager took.
    pub job_ids: Seq<JobId>,
    /// What is sent to the owner of the history log.
    pub history: Seq<HistoryMessageView>,
}

/// Whether the manager takes a job: no job has its identifier, and no
/// active job has its URL.
pub open spec fn is_accepted(s: ManagerView, job: QueuedJobView, limits: Limits) -> bool {
    after_add(s, job, limits).1.last() == EffectView::Reply(AddJobReply::Accepted)
}

/// Queues the entries one after the other under the identifiers given. A
/// job that the manager takes is noted; its URL goes to the history unless
/// the history knows it.
pub open spec fn submitted(
    s: ManagerView,
    request: DownloadRequestView,
    template: Seq<char>,
    known: Set<Seq<char>>,
    entries: Seq<PlaylistEntryView>,
    ids: Seq<JobId>,
    limits: Limits,
) -> Submitted
    recommends
        ids.len() == entries.len(),
    decreases entries.len(),
{
    if entries.len() == 0 || ids.len() != entries.len() {
        Submitted { manager: s, effects: Seq::empty(), job_ids: Seq::empty(), history: Seq::empty() }
    } else {
        let before = submitted(
            s,
            request,
            template,
            known,
            entries.drop_last(),
            ids.drop_last(),
            limits,
        );
        let job = declared(request, template, entries.last().url, ids.last());
        let (after, effects) = after_add(before.manager, job, limits);
        if is_accepted(before.manager, job, limits) {
            Submitted {
                manager: after,
                effects: before.effects + effects.drop_last(),
                job_ids: before.job_ids.push(ids.last()),
                history: if known.contains(normalized(entries.last().url)) {
                    before.history
                } else {
                    before.history.push(HistoryMessageView::Add(entries.last().url))
                },
            }
        } else {
            Submitted {
                manager: after,
                effects: before.effects + effects.drop_last(),
                ..before
            }
        }
    }
}

/// A count as it goes into an answer: the largest number stands for
/// anything beyond it.
pub open spec fn clamped(n: nat) -> u32 {
    if n > u32::MAX {
        u32::MAX
    } else {
        n as u32
    }
}

fn clamp(n: usize) -> (c: u32)
    ensures
        c == clamped(n as nat),
{
    if n > u32::MAX as usize {
        u32::MAX
    } else {
        n as u32
    }
}

/// The views of a sequence of history messages.
pub open spec fn history_views(v: Seq<HistoryMessage>) -> Seq<HistoryMessageView> {
    v.map_values(|m: HistoryMessage| m@)
}

/// What a request comes to.
#[derive(Debug)]
pub struct StartDownloadOutcome {
    pub response: StartDownloadResponse,
    /// What the manager asks to be done.
    pub effects: Vec<Effect>,
    /// What is to be sent to the owner of the history log.
    pub history: Vec<HistoryMessage>,
}

fn listed(whitelist: &Option<Vec<String>>, url: &str) -> (r: bool)
    ensures
        r == match crate::json::opt_views(*whitelist) {
            Some(list) => list.contains(url@),
            None => true,
        },
{
    match whitelist {
        Some(list) => {
            let mut i: usize = 0;
            while i < list.len()
                invariant
                    i <= list.len(),
                    crate::json::opt_views(*whitelist) == Some(views(list@)),
                    forall|j: int| 0 <= j < i ==> #[trigger] views(list@)[j] != url@,
                decreases list.len() - i,
            {
                if same_text(list[i].as_str(), url) {
                    assert(views(list@)[i as int] == url@);
                    assert(views(list@).contains(url@));
                    return true;
                }
                i = i + 1;
            }
            false
        },
        None => true,
    }
}

/// Sorts the entries of a request: those to be queued, and the URLs of
/// those that the history knows.
pub fn select_entries(request: &DownloadRequest, history: &HistoryManager, entries: &Vec<PlaylistEntry>) -> (r:
    (Vec<PlaylistEntry>, Vec<String>))
    ensures
        entry_views(r.0@) == wanted_entries(request@, history@, entry_views(entries@)),
        views(r.1@) == skipped_urls(request@, history@, entry_views(entries@)),
{
    let forced = match request.force_download {
        Some(f) => f,
        None => false,
    };
    let mut wanted: Vec<PlaylistEntry> = Vec::new();
    let mut skipped: Vec<String> = Vec::new();
    let mut i: usize = 0;
    assert(entry_views(wanted@) =~= Seq::empty());
    assert(views(skipped@) =~= Seq::empty());
    while i < entries.len()
        invariant
            i <= entries.len(),
            forced == is_forced(request@),
            entry_views(wanted@) == wanted_entries(
                request@,
                history@,
                entry_views(entries@).take(i as int),
            ),
            views(skipped@) == skipped_urls(
                request@,
                history@,
                entry_views(entries@).take(i as int),
            ),
        decreases entries.len() - i,
    {
        let ghost w = entry_views(wanted@);
        let ghost k = views(skipped@);
        proof {
            assert(entry_views(entries@).take(i + 1).drop_last() =~= entry_views(entries@).take(
                i as int,
            ));
        }
        let entry = &entries[i];
        if listed(&request.url_whitelist, entry.url.as_str()) {
            if !forced && history.is_known(entry.url.as_str()) {
                skipped.push(entry.url.clone());
                assert(views(skipped@) =~= k.push(entry@.url));
            } else {
                wanted.push(entry.clone());
                assert(entry_views(wanted@) =~= w.push(entry@));
            }
        }
        i = i + 1;
    }
    assert(entry_views(entries@).take(entries.len() as int) =~= entry_views(entries@));
    (wanted, skipped)
}

/// Declares the job for one entry of a request.
pub fn declare_job(request: &DownloadRequest, template: &str, url: &str, id: JobId) -> (job: QueuedJob)
    ensures
        job@ == declared(request@, template@, url@, id),
{
    QueuedJob {
        id,
        url: url.to_owned(),
        download_path: clone_opt(&request.download_path),
        format_preset: request.format_preset,
        video_resolution: request.video_resolution.clone(),
        embed_metadata: request.embed_metadata,
        embed_thumbnail: request.embed_thumbnail,
        filename_template: template.to_owned(),
        restrict_filenames: match request.restrict_filenames {
            Some(r) => r,
            None => false,
        },
        live_from_start: match request.live_from_start {
            Some(l) => l,
            None => false,
        },
        status: None,
        error: None,
        stderr: None,
    }
}

/// What is left of a submission once its entries are queued.
#[derive(Debug)]
pub struct Submission {
    pub effects: Vec<Effect>,
    pub job_ids: Vec<JobId>,
    pub history: Vec<HistoryMessage>,
}

/// Queues the entries one after the other under the identifiers given, one
/// for each entry.
pub fn submit_entries(
    manager: &mut JobManager,
    request: &DownloadRequest,
    template: &str,
    history: &HistoryManager,
    entries: &Vec<PlaylistEntry>,
    ids: &Vec<JobId>,
    limits: Limits,
) -> (done: Submission)
    requires
        ids.len() == entries.len(),
    ensures
        ({
            let s = submitted(
                old(manager)@,
                request@,
                template@,
                history@,
                entry_views(entries@),
                ids@,
                limits,
            );
            &&& final(manager)@ == s.manager
            &&& effect_views(done.effects@) == s.effects
            &&& done.job_ids@ == s.job_ids
            &&& history_views(done.history@) == s.history
        }),
        well_formed(old(manager)@) ==> well_formed(final(manager)@),
        within_limits(old(manager)@, limits) ==> within_limits(final(manager)@, limits),
{
    let mut effects: Vec<Effect> = Vec::new();
    let mut job_ids: Vec<JobId> = Vec::new();
    let mut messages: Vec<HistoryMessage> = Vec::new();
    let mut i: usize = 0;
    assert(effect_views(effects@) =~= Seq::empty());
    assert(history_views(messages@) =~= Seq::empty());
    assert(job_ids@ =~= Seq::empty());
    while i < entries.len()
        invariant
            i <= entries.len(),
            ids.len() == entries.len(),
            well_formed(old(manager)@) ==> well_formed(manager@),
            within_limits(old(manager)@, limits) ==> within_limits(manager@, limits),
            ({
                let s = submitted(
                    old(manager)@,
                    request@,
                    template@,
                    history@,
                    entry_views(entries@).take(i as int),
                    ids@.take(i as int),
                    limits,
                );
                &&& manager@ == s.manager
                &&& effect_views(effects@) == s.effects
                &&& job_ids@ == s.job_ids
                &&& history_views(messages@) == s.history
            }),
        decreases entries.len() - i,
    {
        let ghost before = manager@;
        let ghost sent = effect_views(effects@);
        let ghost told = history_views(messages@);
        let ghost taken = job_ids@;
        proof {
            assert(entry_views(entries@).take(i + 1).drop_last() =~= entry_views(entries@).take(
                i as int,
            ));
            assert(ids@.take(i + 1).drop_last() =~= ids@.take(i as int));
            assert(entry_views(entries@).take(i + 1).last() == entries@[i as int]@);
            assert(ids@.take(i + 1).last() == ids@[i as int]);
        }
        let entry = &entries[i];
        let job = declare_job(request, template, entry.url.as_str(), ids[i]);
        let ghost added = after_add(before, job@, limits).1;
        let (reply, mut more) = manager.try_add(job, limits);
        proof {
            assert(added.drop_last() =~= effect_views(more@));
            assert(added.last() == EffectView::Reply(reply));
        }
        effects.append(&mut more);
        assert(effect_views(effects@) =~= sent + added.drop_last());
        match reply {
            AddJobReply::Accepted => {
                job_ids.push(ids[i]);
                match history.add(entry.url.as_str()) {
                    Some(msg) => {
                        messages.push(msg);
                        assert(history_views(messages@) =~= told.push(
                            HistoryMessageView::Add(entry@.url),
                        ));
                    },
                    None => {},
                }
            },
            _ => {},
        }
        i = i + 1;
    }
    assert(entry_views(entries@).take(entries.len() as int) =~= entry_views(entries@));
    assert(ids@.take(ids.len() as int) =~= ids@);
    Submission { effects, job_ids, history: messages }
}

/// Whether every identifier has the marks of a random UUID.
pub open spec fn all_random(ids: Seq<JobId>) -> bool {
    forall|i: int| 0 <= i < ids.len() ==> is_random_uuid(#[trigger] ids[i])
}

fn fresh_ids(count: usize) -> (ids: Vec<JobId>)
    ensures
        ids.len() == count,
        all_random(ids@),
{
    let mut ids: Vec<JobId> = Vec::new();
    let mut i: usize = 0;
    while i < count
        invariant
            i <= count,
            ids.len() == i,
            all_random(ids@),
        decreases count - i,
    {
        ids.push(fresh_job_id());
        i = i + 1;
    }
    ids
}

/// Carries out a request on what its probe found. A request with a bad URL
/// or template is turned down and changes nothing. Otherwise the entries
/// that the whitelist lets through are sorted: what the history knows is
/// left out, unless the request forces it, and the rest is queued, each
/// job under a fresh identifier, which has the marks of a random UUID.
pub fn start_download(
    manager: &mut JobManager,
    request: &DownloadRequest,
    history: &HistoryManager,
    entries: &Vec<PlaylistEntry>,
    limits: Limits,
) -> (r: Result<StartDownloadOutcome, AppError>)
    ensures
        match r {
            Ok(outcome) => {
                &&& request_verdict(request@.url, request@.filename_template) is Ok
                &&& outcome.response.total_found == clamped(entries@.len())
                &&& views(outcome.response.skipped_urls@) == skipped_urls(
                    request@,
                    history@,
                    entry_views(entries@),
                )
                &&& outcome.response.skipped_count == clamped(outcome.response.skipped_urls@.len())
                &&& exists|ids: Seq<JobId>|
                    {
                        let s = #[trigger] submitted(
                            old(manager)@,
                            request@,
                            request_verdict(request@.url, request@.filename_template)->Ok_0,
                            history@,
                            wanted_entries(request@, history@, entry_views(entries@)),
                            ids,
                            limits,
                        );
                        &&& ids.len() == wanted_entries(
                            request@,
                            history@,
                            entry_views(entries@),
                        ).len()
                        &&& all_random(ids)
                        &&& final(manager)@ == s.manager
                        &&& effect_views(outcome.effects@) == s.effects
                        &&& outcome.response.job_ids@ == s.job_ids
                        &&& history_views(outcome.history@) == s.history
                    }
            },
            Err(e) => {
                &&& Err::<Seq<char>, AppErrorView>(e@) == request_verdict(
                    request@.url,
                    request@.filename_template,
                )
                &&& final(manager)@ == old(manager)@
            },
        },
        well_formed(old(manager)@) ==> well_formed(final(manager)@),
        within_limits(old(manager)@, limits) ==> within_limits(final(manager)@, limits),
{
    let template = match validate_request(request.url.as_str(), request.filename_template.as_str()) {
        Ok(t) => t,
        Err(e) => {
            return Err(e);
        },
    };
    let (wanted, skipped) = select_entries(request, history, entries);
    let ids = fresh_ids(wanted.len());
    let done = submit_entries(manager, request, template.as_str(), history, &wanted, &ids, limits);
    let outcome = StartDownloadOutcome {
        response: StartDownloadResponse {
            job_ids: done.job_ids,
            skipped_count: clamp(skipped.len()),
            total_found: clamp(entries.len()),
            skipped_urls: skipped,
        },
        effects: done.effects,
        history: done.history,
    };
    proof {
        let verdict = request_verdict(request@.url, request@.filename_template);
        assert(verdict == Ok::<Seq<char>, AppErrorView>(template@));
        let list = wanted_entries(request@, history@, entry_views(entries@));
        let s = submitted(old(manager)@, request@, verdict->Ok_0, history@, list, ids@, limits);
        assert(ids@.len() == list.len());
        assert(manager@ == s.manager);
        assert(effect_views(outcome.effects@) == s.effects);
        assert(outcome.response.job_ids@ == s.job_ids);
        assert(history_views(outcome.history@) == s.history);
        assert(views(outcome.response.skipped_urls@).len() == outcome.response.skipped_urls@.len());
    }
    Ok(outcome)
}

} // verus!
