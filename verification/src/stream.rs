//! Reading the output of the extraction tool, line by line.
//!
//! The tool writes progress records as JSON objects, phase markers in square
//! brackets, and at the end the path of the finished file. [`StreamState`]
//! follows one run of the tool: each line changes the state and may yield a
//! progress update for the manager.

use vstd::prelude::*;
use crate::json::{
    json_number_at, json_parse_error, json_string_at, number_field, parse_error, string_field,
};
use crate::models::{clone_opt, opt_view, JobId, JobMessage, JobMessageView, Percent, PERCENT_FULL};
use crate::pattern::{matches_pattern, pattern_matches};
use crate::text::{
    all_digits, chars_of, copy_range, decimal, decimal2, digits_value, has_prefix, index_of_char,
    parse_digits, position, push_decimal, push_decimal2, push_str, starts_with, string_of, trim,
    trimmed, views,
};

verus! {

/// Lines longer than this many bytes are dropped unread.
pub const MAX_LINE_BYTES: usize = 2048;

/// How many of the latest lines are kept for an error report.
pub const MAX_LOG_LINES: usize = 100;

/// How many of the latest lines of the error stream are kept.
pub const MAX_STDERR_LINES: usize = 50;

/// What the tool is doing, as far as its output shows.
#[derive(Clone, Copy, Debug, PartialEq, Eq, Structural)]
pub enum Phase {
    Initializing,
    Downloading,
    StartingDownload,
    WritingMetadata,
    EmbeddingThumbnail,
    MergingFormats,
    ExtractingAudio,
    FixingContainer,
    Finalizing,
    ProcessingFfmpeg,
}

/// The name of a phase as observers see it.
pub open spec fn phase_label(p: Phase) -> Seq<char> {
    match p {
        Phase::Initializing => "Initializing"@,
        Phase::Downloading => "Downloading"@,
        Phase::StartingDownload => "Starting Download"@,
        Phase::WritingMetadata => "Writing Metadata"@,
        Phase::EmbeddingThumbnail => "Embedding Thumbnail"@,
        Phase::MergingFormats => "Merging Formats"@,
        Phase::ExtractingAudio => "Extracting Audio"@,
        Phase::FixingContainer => "Fixing Container"@,
        Phase::Finalizing => "Finalizing"@,
        Phase::ProcessingFfmpeg => "Processing (FFmpeg)"@,
    }
}

/// The phases after the download proper, which a late progress record does
/// not turn back into `Downloading`.
pub open spec fn is_post_processing(p: Phase) -> bool {
    p == Phase::MergingFormats || p == Phase::ExtractingAudio || p == Phase::WritingMetadata || p
        == Phase::EmbeddingThumbnail || p == Phase::FixingContainer
}

/// The phases that say more than a bare `[ffmpeg]` marker does.
pub open spec fn outranks_ffmpeg(p: Phase) -> bool {
    p == Phase::MergingFormats || p == Phase::ExtractingAudio
}

impl Phase {
    /// The name of this phase as observers see it.
    pub fn label(&self) -> (name: String)
        ensures
            name@ == phase_label(*self),
    {
        match self {
            Phase::Initializing => "Initializing".to_owned(),
            Phase::Downloading => "Downloading".to_owned(),
            Phase::StartingDownload => "Starting Download".to_owned(),
            Phase::WritingMetadata => "Writing Metadata".to_owned(),
            Phase::EmbeddingThumbnail => "Embedding Thumbnail".to_owned(),
            Phase::MergingFormats => "Merging Formats".to_owned(),
            Phase::ExtractingAudio => "Extracting Audio".to_owned(),
            Phase::FixingContainer => "Fixing Container".to_owned(),
            Phase::Finalizing => "Finalizing".to_owned(),
            Phase::ProcessingFfmpeg => "Processing (FFmpeg)".to_owned(),
        }
    }
}

/// A phase marker at the start of a line.
#[derive(Clone, Copy, Debug, PartialEq, Eq, Structural)]
pub enum Marker {
    DownloadStart,
    Metadata,
    Thumbnail,
    Merger,
    ExtractAudio,
    Fixup,
    MoveFiles,
    Ffmpeg,
}

/// Matches the line that announces where a download is written to.
pub open spec fn destination_pattern() -> Seq<char> {
    "^\\[download\\]\\s+Destination:"@
}

/// Matches the marker of any of the tool's container fix-ups.
pub open spec fn fixup_pattern() -> Seq<char> {
    "^\\[(?:Fixup\\w+)\\]"@
}

/// The marker that a line opens with. Two markers are told by pattern:
/// `destination` and `fixup` say whether those patterns match the line, and
/// count only under the prefix that goes with them.
pub open spec fn marker_of(line: Seq<char>, destination: bool, fixup: bool) -> Option<Marker> {
    if has_prefix(line, "[download]"@) {
        if destination {
            Some(Marker::DownloadStart)
        } else {
            None
        }
    } else if has_prefix(line, "[Metadata]"@) {
        Some(Marker::Metadata)
    } else if has_prefix(line, "[Thumbnails]"@) || has_prefix(line, "[EmbedThumbnail]"@) {
        Some(Marker::Thumbnail)
    } else if has_prefix(line, "[Merger]"@) {
        Some(Marker::Merger)
    } else if has_prefix(line, "[ExtractAudio]"@) {
        Some(Marker::ExtractAudio)
    } else if has_prefix(line, "[Fixup"@) {
        if fixup {
            Some(Marker::Fixup)
        } else {
            None
        }
    } else if has_prefix(line, "[MoveFiles]"@) {
        Some(Marker::MoveFiles)
    } else if has_prefix(line, "[ffmpeg]"@) {
        Some(Marker::Ffmpeg)
    } else {
        None
    }
}

fn begins(line: &[char], prefix: &str) -> (r: bool)
    ensures
        r == has_prefix(line@, prefix@),
{
    let p = chars_of(prefix);
    starts_with(line, p.as_slice())
}

/// The marker that `line` opens with, given what the two patterns say of it.
pub fn find_marker(line: &str, destination: bool, fixup: bool) -> (m: Option<Marker>)
    ensures
        m == marker_of(line@, destination, fixup),
{
    let chars = chars_of(line);
    let l = chars.as_slice();
    if begins(l, "[download]") {
        if destination {
            Some(Marker::DownloadStart)
        } else {
            None
        }
    } else if begins(l, "[Metadata]") {
        Some(Marker::Metadata)
    } else if begins(l, "[Thumbnails]") || begins(l, "[EmbedThumbnail]") {
        Some(Marker::Thumbnail)
    } else if begins(l, "[Merger]") {
        Some(Marker::Merger)
    } else if begins(l, "[ExtractAudio]") {
        Some(Marker::ExtractAudio)
    } else if begins(l, "[Fixup") {
        if fixup {
            Some(Marker::Fixup)
        } else {
            None
        }
    } else if begins(l, "[MoveFiles]") {
        Some(Marker::MoveFiles)
    } else if begins(l, "[ffmpeg]") {
        Some(Marker::Ffmpeg)
    } else {
        None
    }
}

/// Whether `c` parts the components of a path.
pub open spec fn is_separator(c: char) -> bool {
    c == '/' || c == '\\'
}

/// What follows the last separator of a path.
pub open spec fn last_component(path: Seq<char>) -> Seq<char>
    decreases path.len(),
{
    if path.len() == 0 || is_separator(path.last()) {
        Seq::empty()
    } else {
        last_component(path.drop_last()).push(path.last())
    }
}

/// The file name that a path ends in, if it ends in one.
pub open spec fn file_name_of(path: Seq<char>) -> Option<Seq<char>> {
    if last_component(path).len() > 0 {
        Some(last_component(path))
    } else {
        None
    }
}

/// Whether `path` lies below the directory `dir`: it goes on after `dir`
/// with a separator and something more.
pub open spec fn path_within(path: Seq<char>, dir: Seq<char>) -> bool {
    dir.len() > 0 && has_prefix(path, dir) && path.len() > dir.len() && (is_separator(dir.last())
        || (is_separator(path[dir.len() as int]) && path.len() > dir.len() + 1))
}

proof fn lemma_last_component(path: Seq<char>, k: int)
    requires
        0 <= k <= path.len(),
        forall|j: int| k <= j < path.len() ==> !is_separator(#[trigger] path[j]),
        k > 0 ==> is_separator(path[k - 1]),
    ensures
        last_component(path) == path.subrange(k, path.len() as int),
    decreases path.len() - k,
{
    if k == path.len() {
        assert(path.subrange(k, path.len() as int) =~= Seq::<char>::empty());
    } else {
        let t = path.drop_last();
        lemma_last_component(t, k);
        assert(t.subrange(k, t.len() as int).push(path.last()) =~= path.subrange(
            k,
            path.len() as int,
        ));
    }
}

/// The file name that `path` ends in, if it ends in one.
pub fn file_name(path: &str) -> (name: Option<String>)
    ensures
        opt_view(name) == file_name_of(path@),
{
    let chars = chars_of(path);
    let mut k: usize = chars.len();
    while k > 0 && chars[k - 1] != '/' && chars[k - 1] != '\\'
        invariant
            k <= chars.len(),
            forall|j: int| k <= j < chars.len() ==> !is_separator(#[trigger] chars@[j]),
        decreases k,
    {
        k = k - 1;
    }
    proof {
        lemma_last_component(chars@, k as int);
    }
    if k == chars.len() {
        None
    } else {
        let part = copy_range(chars.as_slice(), k, chars.len());
        Some(string_of(part.as_slice()))
    }
}

/// Whether `path` lies below the directory `dir`.
pub fn is_within(path: &str, dir: &str) -> (r: bool)
    ensures
        r == path_within(path@, dir@),
{
    let p = chars_of(path);
    let d = chars_of(dir);
    if d.len() == 0 || !starts_with(p.as_slice(), d.as_slice()) || p.len() <= d.len() {
        return false;
    }
    let last = d[d.len() - 1];
    if last == '/' || last == '\\' {
        return true;
    }
    let next = p[d.len()];
    (next == '/' || next == '\\') && p.len() > d.len() + 1
}

/// The whole part of a numeral as `serde_json` prints numbers: the digits
/// before the point. A numeral with a sign or an exponent, or whose whole
/// part does not fit 64 bits, has none.
pub open spec fn whole_number(text: Seq<char>) -> Option<u64> {
    let whole = text.take(index_of_char(text, '.'));
    if whole.len() > 0 && all_digits(whole) && digits_value(whole) <= u64::MAX
        && index_of_char(text, 'e') == text.len() && index_of_char(text, 'E') == text.len() {
        Some(digits_value(whole) as u64)
    } else {
        None
    }
}

/// The whole part of the numeral `text`.
pub fn parse_whole_number(text: &str) -> (n: Option<u64>)
    ensures
        n == whole_number(text@),
{
    let chars = chars_of(text);
    let s = chars.as_slice();
    if position(s, 'e') != s.len() || position(s, 'E') != s.len() {
        return None;
    }
    let dot = position(s, '.');
    let whole = copy_range(s, 0, dot);
    parse_digits(whole.as_slice(), u64::MAX)
}

/// One progress record of the tool, with each number cut to a whole.
#[derive(Debug)]
pub struct ProgressRecord {
    pub downloaded_bytes: Option<u64>,
    pub total_bytes: Option<u64>,
    pub total_bytes_estimate: Option<u64>,
    /// Bytes per second.
    pub speed: Option<u64>,
    /// Seconds left.
    pub eta: Option<u64>,
    pub filename: Option<String>,
}

pub ghost struct ProgressRecordView {
    pub downloaded_bytes: Option<u64>,
    pub total_bytes: Option<u64>,
    pub total_bytes_estimate: Option<u64>,
    pub speed: Option<u64>,
    pub eta: Option<u64>,
    pub filename: Option<Seq<char>>,
}

impl View for ProgressRecord {
    type V = ProgressRecordView;

    open spec fn view(&self) -> ProgressRecordView {
        ProgressRecordView {
            downloaded_bytes: self.downloaded_bytes,
            total_bytes: self.total_bytes,
            total_bytes_estimate: self.total_bytes_estimate,
            speed: self.speed,
            eta: self.eta,
            filename: opt_view(self.filename),
        }
    }
}

/// The whole part of the number under `key` of the JSON object `doc`.
pub open spec fn whole_number_at(doc: Seq<char>, key: Seq<char>) -> Option<u64> {
    match json_number_at(doc, key) {
        Some(text) => whole_number(text),
        None => None,
    }
}

/// The progress record that the JSON object `doc` holds.
pub open spec fn progress_record_of(doc: Seq<char>) -> ProgressRecordView {
    ProgressRecordView {
        downloaded_bytes: whole_number_at(doc, "downloaded_bytes"@),
        total_bytes: whole_number_at(doc, "total_bytes"@),
        total_bytes_estimate: whole_number_at(doc, "total_bytes_estimate"@),
        speed: whole_number_at(doc, "speed"@),
        eta: whole_number_at(doc, "eta"@),
        filename: json_string_at(doc, "filename"@),
    }
}

fn read_whole_number(doc: &str, key: &str) -> (n: Option<u64>)
    ensures
        n == whole_number_at(doc@, key@),
{
    match number_field(doc, key) {
        Some(text) => parse_whole_number(text.as_str()),
        None => None,
    }
}

/// Reads the progress record that the JSON object `doc` holds.
pub fn read_progress_record(doc: &str) -> (record: ProgressRecord)
    ensures
        record@ == progress_record_of(doc@),
{
    ProgressRecord {
        downloaded_bytes: read_whole_number(doc, "downloaded_bytes"),
        total_bytes: read_whole_number(doc, "total_bytes"),
        total_bytes_estimate: read_whole_number(doc, "total_bytes_estimate"),
        speed: read_whole_number(doc, "speed"),
        eta: read_whole_number(doc, "eta"),
        filename: string_field(doc, "filename"),
    }
}

/// What one line of output means.
#[derive(Debug)]
pub enum LineEvent {
    /// The path of the finished file, below the stage directory.
    OutputPath { path: String },
    Progress(ProgressRecord),
    Marker(Marker),
    Ignored,
}

pub ghost enum LineEventView {
    OutputPath { path: Seq<char> },
    Progress(ProgressRecordView),
    Marker(Marker),
    Ignored,
}

impl View for LineEvent {
    type V = LineEventView;

    open spec fn view(&self) -> LineEventView {
        match *self {
            LineEvent::OutputPath { path } => LineEventView::OutputPath { path: path@ },
            LineEvent::Progress(record) => LineEventView::Progress(record@),
            LineEvent::Marker(m) => LineEventView::Marker(m),
            LineEvent::Ignored => LineEventView::Ignored,
        }
    }
}

/// What a trimmed, non-empty line means. A line of the output stream that
/// is a path below the stage directory is the finished file. A line that
/// opens with a brace is a progress record if it is a JSON document, and
/// nothing otherwise. Any other line counts by the marker it opens with.
pub open spec fn event_of(line: Seq<char>, is_stderr: bool, stage_dir: Seq<char>) -> LineEventView {
    if !is_stderr && path_within(line, stage_dir) {
        LineEventView::OutputPath { path: line }
    } else if has_prefix(line, "{"@) {
        if json_parse_error(line).is_none() {
            LineEventView::Progress(progress_record_of(line))
        } else {
            LineEventView::Ignored
        }
    } else {
        match marker_of(
            line,
            pattern_matches(destination_pattern(), line),
            pattern_matches(fixup_pattern(), line),
        ) {
            Some(m) => LineEventView::Marker(m),
            None => LineEventView::Ignored,
        }
    }
}

/// Tells what the trimmed, non-empty `line` means.
pub fn classify_line(line: &str, is_stderr: bool, stage_dir: &str) -> (event: LineEvent)
    ensures
        event@ == event_of(line@, is_stderr, stage_dir@),
{
    if !is_stderr && is_within(line, stage_dir) {
        return LineEvent::OutputPath { path: line.to_owned() };
    }
    let chars = chars_of(line);
    if begins(chars.as_slice(), "{") {
        if parse_error(line).is_none() {
            LineEvent::Progress(read_progress_record(line))
        } else {
            LineEvent::Ignored
        }
    } else {
        let destination = begins(chars.as_slice(), "[download]") && matches_pattern(
            "^\\[download\\]\\s+Destination:",
            line,
        );
        let fixup = begins(chars.as_slice(), "[Fixup") && matches_pattern("^\\[(?:Fixup\\w+)\\]", line);
        match find_marker(line, destination, fixup) {
            Some(m) => LineEvent::Marker(m),
            None => LineEvent::Ignored,
        }
    }
}


pub const KIB: u64 = 1024;

pub const MIB: u64 = 1024 * 1024;

pub const GIB: u64 = 1024 * 1024 * 1024;

/// `done` out of `total`, in hundredths of a percent; a value too large for
/// [`Percent`] becomes the largest one.
pub open spec fn percent_of(done: u64, total: u64) -> Percent
    recommends
        total > 0,
{
    if done as int * 10_000 / total as int > u32::MAX {
        u32::MAX
    } else {
        (done as int * 10_000 / total as int) as u32
    }
}

/// Computes `done` out of `total` in hundredths of a percent.
pub fn percent(done: u64, total: u64) -> (p: Percent)
    requires
        total > 0,
    ensures
        p == percent_of(done, total),
{
    let scaled: u128 = (done as u128) * 10_000 / (total as u128);
    if scaled > u32::MAX as u128 {
        u32::MAX
    } else {
        scaled as u32
    }
}

/// `amount / unit` in hundredths, rounded to the nearest, a tie to the even one.
pub open spec fn hundredths_of(amount: nat, unit: nat) -> nat
    recommends
        unit > 0,
{
    let q = amount * 100 / unit;
    let r = amount * 100 % unit;
    if 2 * r > unit || (2 * r == unit && q % 2 == 1) {
        q + 1
    } else {
        q
    }
}

/// A number of hundredths written with two decimal places.
pub open spec fn fixed2(hundredths: nat) -> Seq<char> {
    decimal(hundredths / 100) + "."@ + decimal2(hundredths % 100)
}

/// A transfer rate in bytes per second, in the largest binary unit that it reaches.
pub open spec fn speed_text(bytes_per_sec: u64) -> Seq<char> {
    if bytes_per_sec >= GIB {
        fixed2(hundredths_of(bytes_per_sec as nat, GIB as nat)) + " GiB/s"@
    } else if bytes_per_sec >= MIB {
        fixed2(hundredths_of(bytes_per_sec as nat, MIB as nat)) + " MiB/s"@
    } else if bytes_per_sec >= KIB {
        fixed2(hundredths_of(bytes_per_sec as nat, KIB as nat)) + " KiB/s"@
    } else {
        decimal(bytes_per_sec as nat) + " B/s"@
    }
}

fn hundredths(amount: u64, unit: u64) -> (h: u64)
    requires
        unit >= 1024,
    ensures
        h == hundredths_of(amount as nat, unit as nat),
{
    let scaled: u128 = (amount as u128) * 100;
    let q: u128 = scaled / (unit as u128);
    let r: u128 = scaled % (unit as u128);
    assert(q <= scaled / 1024) by (nonlinear_arith)
        requires
            q == scaled / (unit as u128),
            unit >= 1024,
    ;
    if 2 * r > unit as u128 || (2 * r == unit as u128 && q % 2 == 1) {
        (q + 1) as u64
    } else {
        q as u64
    }
}

fn push_fixed2(out: &mut Vec<char>, h: u64)
    ensures
        final(out)@ == old(out)@ + fixed2(h as nat),
{
    push_decimal(out, h / 100);
    push_str(out, ".");
    push_decimal2(out, h % 100);
    assert(out@ =~= old(out)@ + fixed2(h as nat));
}

/// Writes a transfer rate for an observer.
pub fn format_speed(bytes_per_sec: u64) -> (text: String)
    ensures
        text@ == speed_text(bytes_per_sec),
{
    let mut out: Vec<char> = Vec::new();
    if bytes_per_sec >= GIB {
        push_fixed2(&mut out, hundredths(bytes_per_sec, GIB));
        push_str(&mut out, " GiB/s");
    } else if bytes_per_sec >= MIB {
        push_fixed2(&mut out, hundredths(bytes_per_sec, MIB));
        push_str(&mut out, " MiB/s");
    } else if bytes_per_sec >= KIB {
        push_fixed2(&mut out, hundredths(bytes_per_sec, KIB));
        push_str(&mut out, " KiB/s");
    } else {
        push_decimal(&mut out, bytes_per_sec);
        push_str(&mut out, " B/s");
    }
    assert(out@ =~= speed_text(bytes_per_sec));
    string_of(out.as_slice())
}

/// A time left in seconds as `MM:SS`, or `HH:MM:SS` from an hour on.
pub open spec fn eta_text(seconds: u64) -> Seq<char> {
    let h = (seconds / 3600) as nat;
    let m = ((seconds % 3600) / 60) as nat;
    let s = (seconds % 60) as nat;
    if h > 0 {
        decimal2(h) + ":"@ + decimal2(m) + ":"@ + decimal2(s)
    } else {
        decimal2(m) + ":"@ + decimal2(s)
    }
}

/// Writes a time left for an observer.
pub fn format_eta(seconds: u64) -> (text: String)
    ensures
        text@ == eta_text(seconds),
{
    let h: u64 = seconds / 3600;
    let m: u64 = (seconds % 3600) / 60;
    let s: u64 = seconds % 60;
    let mut out: Vec<char> = Vec::new();
    if h > 0 {
        push_decimal2(&mut out, h);
        push_str(&mut out, ":");
    }
    push_decimal2(&mut out, m);
    push_str(&mut out, ":");
    push_decimal2(&mut out, s);
    assert(out@ =~= eta_text(seconds));
    string_of(out.as_slice())
}

/// A progress update as a worker reports it to the manager.
#[derive(Debug)]
pub struct ProgressUpdate {
    pub percentage: Percent,
    pub speed: String,
    pub eta: String,
    pub filename: Option<String>,
    pub phase: String,
}

pub ghost struct ProgressUpdateView {
    pub percentage: Percent,
    pub speed: Seq<char>,
    pub eta: Seq<char>,
    pub filename: Option<Seq<char>>,
    pub phase: Seq<char>,
}

impl View for ProgressUpdate {
    type V = ProgressUpdateView;

    open spec fn view(&self) -> ProgressUpdateView {
        ProgressUpdateView {
            percentage: self.percentage,
            speed: self.speed@,
            eta: self.eta@,
            filename: opt_view(self.filename),
            phase: self.phase@,
        }
    }
}

/// The view of an optional update.
pub open spec fn update_view(u: Option<ProgressUpdate>) -> Option<ProgressUpdateView> {
    match u {
        Some(update) => Some(update@),
        None => None,
    }
}

impl ProgressUpdate {
    /// The message that carries this update for job `id`.
    pub fn into_message(self, id: JobId) -> (msg: JobMessage)
        ensures
            msg@ == (JobMessageView::UpdateProgress {
                id,
                percentage: self@.percentage,
                speed: self@.speed,
                eta: self@.eta,
                filename: self@.filename,
                phase: self@.phase,
            }),
    {
        JobMessage::UpdateProgress {
            id,
            percentage: self.percentage,
            speed: self.speed,
            eta: self.eta,
            filename: self.filename,
            phase: self.phase,
        }
    }
}

/// What a worker knows of its run so far.
#[derive(Debug)]
pub struct StreamState {
    percentage: Percent,
    phase: Phase,
    output_path: Option<String>,
    filename: Option<String>,
    logs: Vec<String>,
    stderr: Vec<String>,
}

pub ghost struct StreamView {
    pub percentage: Percent,
    pub phase: Phase,
    /// The finished file, once the tool has printed its path.
    pub output_path: Option<Seq<char>>,
    /// The name of the file being written, once known.
    pub filename: Option<Seq<char>>,
    /// The latest lines of both streams, oldest first.
    pub logs: Seq<Seq<char>>,
    /// The latest lines of the error stream, oldest first.
    pub stderr: Seq<Seq<char>>,
}

impl View for StreamState {
    type V = StreamView;

    closed spec fn view(&self) -> StreamView {
        StreamView {
            percentage: self.percentage,
            phase: self.phase,
            output_path: opt_view(self.output_path),
            filename: opt_view(self.filename),
            logs: views(self.logs@),
            stderr: views(self.stderr@),
        }
    }
}

/// The state before the first line.
pub open spec fn initial_stream() -> StreamView {
    StreamView {
        percentage: 0,
        phase: Phase::Initializing,
        output_path: None,
        filename: None,
        logs: Seq::empty(),
        stderr: Seq::empty(),
    }
}

/// `lines` with `line` added at the end, and the oldest line dropped where
/// that makes more than `cap`.
pub open spec fn capped_push(lines: Seq<Seq<char>>, line: Seq<char>, cap: nat) -> Seq<Seq<char>> {
    if lines.len() + 1 > cap {
        lines.push(line).drop_first()
    } else {
        lines.push(line)
    }
}

/// The state after `line` was taken down in the buffers.
pub open spec fn recorded(s: StreamView, line: Seq<char>, is_stderr: bool) -> StreamView {
    StreamView {
        logs: capped_push(s.logs, line, MAX_LOG_LINES as nat),
        stderr: if is_stderr {
            capped_push(s.stderr, line, MAX_STDERR_LINES as nat)
        } else {
            s.stderr
        },
        ..s
    }
}

/// The total to measure progress against: the exact one where the record
/// has it, else the estimate.
pub open spec fn total_of(record: ProgressRecordView) -> Option<u64> {
    if record.total_bytes.is_some() {
        record.total_bytes
    } else {
        record.total_bytes_estimate
    }
}

/// The update that reports state `s` with the given rate and time left.
pub open spec fn update_of(s: StreamView, speed: Seq<char>, eta: Seq<char>) -> ProgressUpdateView {
    ProgressUpdateView {
        percentage: s.percentage,
        speed,
        eta,
        filename: s.filename,
        phase: phase_label(s.phase),
    }
}

/// The state after a progress record.
pub open spec fn after_record(s: StreamView, record: ProgressRecordView) -> StreamView {
    StreamView {
        percentage: if record.downloaded_bytes.is_some() && total_of(record).is_some()
            && total_of(record).unwrap() > 0 {
            percent_of(record.downloaded_bytes.unwrap(), total_of(record).unwrap())
        } else {
            s.percentage
        },
        filename: if s.filename.is_some() {
            s.filename
        } else {
            match record.filename {
                Some(f) => file_name_of(f),
                None => None,
            }
        },
        phase: if is_post_processing(s.phase) {
            s.phase
        } else {
            Phase::Downloading
        },
        ..s
    }
}

/// The text shown for an optional rate.
pub open spec fn speed_or_unknown(speed: Option<u64>) -> Seq<char> {
    match speed {
        Some(v) => speed_text(v),
        None => "N/A"@,
    }
}

/// The text shown for an optional time left.
pub open spec fn eta_or_unknown(eta: Option<u64>) -> Seq<char> {
    match eta {
        Some(v) => eta_text(v),
        None => "N/A"@,
    }
}

/// The state after a marker.
pub open spec fn after_marker(s: StreamView, m: Marker) -> StreamView {
    match m {
        Marker::DownloadStart => StreamView { phase: Phase::StartingDownload, ..s },
        Marker::Metadata => StreamView { phase: Phase::WritingMetadata, percentage: 9_900, ..s },
        Marker::Thumbnail => StreamView {
            phase: Phase::EmbeddingThumbnail,
            percentage: 9_900,
            ..s
        },
        Marker::Merger => StreamView {
            phase: Phase::MergingFormats,
            percentage: PERCENT_FULL,
            ..s
        },
        Marker::ExtractAudio => StreamView {
            phase: Phase::ExtractingAudio,
            percentage: PERCENT_FULL,
            ..s
        },
        Marker::Fixup => StreamView { phase: Phase::FixingContainer, percentage: PERCENT_FULL, ..s },
        Marker::MoveFiles => StreamView { phase: Phase::Finalizing, percentage: PERCENT_FULL, ..s },
        Marker::Ffmpeg => if outranks_ffmpeg(s.phase) {
            s
        } else {
            StreamView { phase: Phase::ProcessingFfmpeg, ..s }
        },
    }
}

/// The time left that goes out with a marker.
pub open spec fn marker_eta(m: Marker) -> Seq<char> {
    if m == Marker::Merger || m == Marker::ExtractAudio {
        "Done"@
    } else {
        "N/A"@
    }
}

/// The state after an event, and the update that it gives rise to.
pub open spec fn applied(s: StreamView, event: LineEventView) -> (
    StreamView,
    Option<ProgressUpdateView>,
) {
    match event {
        LineEventView::OutputPath { path } => (
            StreamView {
                output_path: Some(path),
                filename: match file_name_of(path) {
                    Some(name) => Some(name),
                    None => s.filename,
                },
                ..s
            },
            None,
        ),
        LineEventView::Progress(record) => (
            after_record(s, record),
            Some(
                update_of(
                    after_record(s, record),
                    speed_or_unknown(record.speed),
                    eta_or_unknown(record.eta),
                ),
            ),
        ),
        LineEventView::Marker(m) => (
            after_marker(s, m),
            if m == Marker::Ffmpeg && outranks_ffmpeg(s.phase) {
                None
            } else {
                Some(update_of(after_marker(s, m), "N/A"@, marker_eta(m)))
            },
        ),
        LineEventView::Ignored => (s, None),
    }
}

/// Whether a line has more than [`MAX_LINE_BYTES`] bytes.
pub open spec fn is_too_long(line: Seq<char>) -> bool {
    vstd::utf8::encode_utf8(line).len() as usize > MAX_LINE_BYTES
}

/// The state after a raw line, and the update that it gives rise to. A line
/// of more than [`MAX_LINE_BYTES`] bytes, and one that is blank, leaves
/// no trace. Any other is trimmed, taken down, and read.
pub open spec fn after_line(
    s: StreamView,
    line: Seq<char>,
    too_long: bool,
    is_stderr: bool,
    stage_dir: Seq<char>,
) -> (StreamView, Option<ProgressUpdateView>) {
    if too_long || trimmed(line).len() == 0 {
        (s, None)
    } else {
        applied(recorded(s, trimmed(line), is_stderr), event_of(trimmed(line), is_stderr, stage_dir))
    }
}

fn push_capped(lines: &mut Vec<String>, line: String, cap: usize)
    requires
        cap > 0,
    ensures
        views(final(lines)@) == capped_push(views(old(lines)@), line@, cap as nat),
{
    if lines.len() >= cap {
        let _ = lines.remove(0);
        lines.push(line);
        assert(views(lines@) =~= views(old(lines)@).push(line@).drop_first());
    } else {
        lines.push(line);
        assert(views(lines@) =~= views(old(lines)@).push(line@));
    }
}

impl StreamState {
    /// The state before the first line.
    pub fn new() -> (state: Self)
        ensures
            state@ == initial_stream(),
    {
        let state = StreamState {
            percentage: 0,
            phase: Phase::Initializing,
            output_path: None,
            filename: None,
            logs: Vec::new(),
            stderr: Vec::new(),
        };
        assert(views(state.logs@) =~= Seq::empty());
        assert(views(state.stderr@) =~= Seq::empty());
        state
    }

    /// The progress so far.
    pub fn percentage(&self) -> (p: Percent)
        ensures
            p == self@.percentage,
    {
        self.percentage
    }

    /// What the tool is doing.
    pub fn phase(&self) -> (p: Phase)
        ensures
            p == self@.phase,
    {
        self.phase
    }

    /// The finished file, once the tool has printed its path.
    pub fn output_path(&self) -> (p: Option<String>)
        ensures
            opt_view(p) == self@.output_path,
    {
        clone_opt(&self.output_path)
    }

    /// The name of the file being written, once known.
    pub fn filename(&self) -> (p: Option<String>)
        ensures
            opt_view(p) == self@.filename,
    {
        clone_opt(&self.filename)
    }

    /// The latest lines of both streams, oldest first.
    pub fn logs(&self) -> (lines: Vec<String>)
        ensures
            views(lines@) == self@.logs,
    {
        self.logs.clone()
    }

    /// The latest lines of the error stream, oldest first.
    pub fn stderr(&self) -> (lines: Vec<String>)
        ensures
            views(lines@) == self@.stderr,
    {
        self.stderr.clone()
    }

    /// Takes a trimmed line down in the buffers.
    pub fn record(&mut self, line: &str, is_stderr: bool)
        ensures
            final(self)@ == recorded(old(self)@, line@, is_stderr),
    {
        push_capped(&mut self.logs, line.to_owned(), MAX_LOG_LINES);
        if is_stderr {
            push_capped(&mut self.stderr, line.to_owned(), MAX_STDERR_LINES);
        }
    }

    fn update(&self, speed: String, eta: String) -> (u: ProgressUpdate)
        ensures
            u@ == update_of(self@, speed@, eta@),
    {
        ProgressUpdate {
            percentage: self.percentage,
            speed,
            eta,
            filename: clone_opt(&self.filename),
            phase: self.phase.label(),
        }
    }

    fn apply_record(&mut self, record: &ProgressRecord)
        ensures
            final(self)@ == after_record(old(self)@, record@),
    {
        let total = if record.total_bytes.is_some() {
            record.total_bytes
        } else {
            record.total_bytes_estimate
        };
        match (record.downloaded_bytes, total) {
            (Some(done), Some(all)) => {
                if all > 0 {
                    self.percentage = percent(done, all);
                }
            },
            _ => {},
        }
        if self.filename.is_none() {
            match &record.filename {
                Some(f) => {
                    self.filename = file_name(f.as_str());
                },
                None => {},
            }
        }
        match self.phase {
            Phase::MergingFormats
            | Phase::ExtractingAudio
            | Phase::WritingMetadata
            | Phase::EmbeddingThumbnail
            | Phase::FixingContainer => {},
            _ => {
                self.phase = Phase::Downloading;
            },
        }
    }

    fn apply_marker(&mut self, m: Marker)
        ensures
            final(self)@ == after_marker(old(self)@, m),
    {
        match m {
            Marker::DownloadStart => {
                self.phase = Phase::StartingDownload;
            },
            Marker::Metadata => {
                self.phase = Phase::WritingMetadata;
                self.percentage = 9_900;
            },
            Marker::Thumbnail => {
                self.phase = Phase::EmbeddingThumbnail;
                self.percentage = 9_900;
            },
            Marker::Merger => {
                self.phase = Phase::MergingFormats;
                self.percentage = PERCENT_FULL;
            },
            Marker::ExtractAudio => {
                self.phase = Phase::ExtractingAudio;
                self.percentage = PERCENT_FULL;
            },
            Marker::Fixup => {
                self.phase = Phase::FixingContainer;
                self.percentage = PERCENT_FULL;
            },
            Marker::MoveFiles => {
                self.phase = Phase::Finalizing;
                self.percentage = PERCENT_FULL;
            },
            Marker::Ffmpeg => {
                match self.phase {
                    Phase::MergingFormats | Phase::ExtractingAudio => {},
                    _ => {
                        self.phase = Phase::ProcessingFfmpeg;
                    },
                }
            },
        }
    }

    /// Takes in what a line means, and says what to report of it.
    pub fn apply(&mut self, event: LineEvent) -> (update: Option<ProgressUpdate>)
        ensures
            (final(self)@, update_view(update)) == applied(old(self)@, event@),
    {
        match event {
            LineEvent::OutputPath { path } => {
                match file_name(path.as_str()) {
                    Some(name) => {
                        self.filename = Some(name);
                    },
                    None => {},
                }
                self.output_path = Some(path);
                None
            },
            LineEvent::Progress(record) => {
                self.apply_record(&record);
                let speed = match record.speed {
                    Some(v) => format_speed(v),
                    None => "N/A".to_owned(),
                };
                let eta = match record.eta {
                    Some(v) => format_eta(v),
                    None => "N/A".to_owned(),
                };
                Some(self.update(speed, eta))
            },
            LineEvent::Marker(m) => {
                let silent = match (m, self.phase) {
                    (Marker::Ffmpeg, Phase::MergingFormats) => true,
                    (Marker::Ffmpeg, Phase::ExtractingAudio) => true,
                    _ => false,
                };
                self.apply_marker(m);
                if silent {
                    None
                } else {
                    let eta = match m {
                        Marker::Merger | Marker::ExtractAudio => "Done".to_owned(),
                        _ => "N/A".to_owned(),
                    };
                    Some(self.update("N/A".to_owned(), eta))
                }
            },
            LineEvent::Ignored => None,
        }
    }

    /// Takes in one raw line of the tool's output. `stage_dir` is the
    /// directory that the tool writes to.
    pub fn on_line(&mut self, line: &str, is_stderr: bool, stage_dir: &str) -> (update: Option<
        ProgressUpdate,
    >)
        ensures
            (final(self)@, update_view(update)) == after_line(
                old(self)@,
                line@,
                line.len() > MAX_LINE_BYTES,
                is_stderr,
                stage_dir@,
            ),
    {
        if line.len() > MAX_LINE_BYTES {
            return None;
        }
        let chars = chars_of(line);
        let kept = trim(chars.as_slice());
        if kept.len() == 0 {
            return None;
        }
        let text = string_of(kept.as_slice());
        self.record(text.as_str(), is_stderr);
        let event = classify_line(text.as_str(), is_stderr, stage_dir);
        self.apply(event)
    }
}

} // verus!
