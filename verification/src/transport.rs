//! The decisions of the transport engine, which downloads one URL to one
//! file: how to read the server's answer to a probe, which mode to use, how
//! to cut a resource into chunks, where to stage the parts, what to ask for
//! when a part is already there, when to try again, and how to put the
//! finished file in place.
//!
//! The engine's caller speaks to the network and the disk and asks these
//! functions what each outcome means.

use vstd::prelude::*;
use crate::models::opt_view;
use crate::retry::{backoff_delay_ms, RetryPolicy};
use crate::text::{
    chars_of, contains, contains_text, decimal, push_decimal, push_str, string_of, views,
};

verus! {

/// Seconds that a read from the response may take.
pub const IO_TIMEOUT_SECS: u64 = 15;

/// Resources of at least this many bytes are fetched in chunks.
pub const CHUNK_THRESHOLD: u64 = 10 * 1024 * 1024;

/// Number of chunks fetched side by side.
pub const DEFAULT_CONCURRENCY: usize = 4;

/// Milliseconds between two progress reports.
pub const PROGRESS_INTERVAL_MS: u64 = 500;

/// The permission bits of a finished file on Unix.
pub const FINISHED_FILE_MODE: u32 = 0o755;

/// Why a download failed.
#[derive(Debug)]
pub enum TransportError {
    Network(String),
    FileSystem(String),
    Validation(String),
    HttpStatus(u16),
    MaxRetriesExceeded,
}

pub ghost enum TransportErrorView {
    Network(Seq<char>),
    FileSystem(Seq<char>),
    Validation(Seq<char>),
    HttpStatus(u16),
    MaxRetriesExceeded,
}

impl View for TransportError {
    type V = TransportErrorView;

    open spec fn view(&self) -> TransportErrorView {
        match *self {
            TransportError::Network(e) => TransportErrorView::Network(e@),
            TransportError::FileSystem(e) => TransportErrorView::FileSystem(e@),
            TransportError::Validation(e) => TransportErrorView::Validation(e@),
            TransportError::HttpStatus(code) => TransportErrorView::HttpStatus(code),
            TransportError::MaxRetriesExceeded => TransportErrorView::MaxRetriesExceeded,
        }
    }
}

/// An error in words.
pub open spec fn error_text(e: TransportErrorView) -> Seq<char> {
    match e {
        TransportErrorView::Network(reason) => "Network IO failed: "@ + reason,
        TransportErrorView::FileSystem(reason) => "File system failed: "@ + reason,
        TransportErrorView::Validation(reason) => "Validation failed: "@ + reason,
        TransportErrorView::HttpStatus(code) => "Server returned error status: "@ + decimal(
            code as nat,
        ),
        TransportErrorView::MaxRetriesExceeded => "Max retries exceeded"@,
    }
}

impl TransportError {
    /// This error in words.
    pub fn message(&self) -> (text: String)
        ensures
            text@ == error_text(self@),
    {
        match self {
            TransportError::Network(reason) => crate::text::concat(
                "Network IO failed: ",
                reason.as_str(),
            ),
            TransportError::FileSystem(reason) => crate::text::concat(
                "File system failed: ",
                reason.as_str(),
            ),
            TransportError::Validation(reason) => crate::text::concat(
                "Validation failed: ",
                reason.as_str(),
            ),
            TransportError::HttpStatus(code) => {
                let mut out = chars_of("Server returned error status: ");
                push_decimal(&mut out, *code as u64);
                string_of(out.as_slice())
            },
            TransportError::MaxRetriesExceeded => "Max retries exceeded".to_owned(),
        }
    }

    /// Whether trying again is pointless: the server says that the resource
    /// is not there.
    pub fn is_fatal(&self) -> (fatal: bool)
        ensures
            fatal == (self@ == TransportErrorView::HttpStatus(404)),
    {
        match self {
            TransportError::HttpStatus(code) => *code == 404,
            _ => false,
        }
    }
}

/// What a probe found out about a resource.
#[derive(Clone, Copy, Debug, PartialEq, Eq, Structural)]
pub struct ProbeInfo {
    pub content_length: Option<u64>,
    pub accepts_ranges: bool,
}

/// Whether an HTTP status stands for success.
pub open spec fn is_success(status: u16) -> bool {
    200 <= status && status < 300
}

/// What the answer to a probe means. A missing resource ends the download.
/// Any other refusal means that nothing is known; the download goes on
/// without a length and without ranges.
pub open spec fn probe_outcome(
    status: u16,
    content_length: Option<u64>,
    accept_ranges: Option<Seq<char>>,
) -> Result<ProbeInfo, TransportErrorView> {
    if status == 404 {
        Err(TransportErrorView::HttpStatus(404))
    } else if !is_success(status) {
        Ok(ProbeInfo { content_length: None, accepts_ranges: false })
    } else {
        Ok(
            ProbeInfo {
                content_length,
                accepts_ranges: match accept_ranges {
                    Some(value) => contains_text(value, "bytes"@),
                    None => false,
                },
            },
        )
    }
}

/// The view of a result whose error is a transport error.
pub open spec fn result_view<T>(r: Result<T, TransportError>) -> Result<T, TransportErrorView> {
    match r {
        Ok(v) => Ok(v),
        Err(e) => Err(e@),
    }
}

/// Reads the answer to a probe: the status, the length that the server
/// gave, and the value of its `Accept-Ranges` header.
pub fn interpret_probe(status: u16, content_length: Option<u64>, accept_ranges: &Option<String>) -> (r:
    Result<ProbeInfo, TransportError>)
    ensures
        result_view(r) == probe_outcome(status, content_length, opt_view(*accept_ranges)),
{
    if status == 404 {
        Err(TransportError::HttpStatus(404))
    } else if !(200 <= status && status < 300) {
        Ok(ProbeInfo { content_length: None, accepts_ranges: false })
    } else {
        let accepts_ranges = match accept_ranges {
            Some(value) => {
                let v = chars_of(value.as_str());
                let word = chars_of("bytes");
                contains(v.as_slice(), word.as_slice())
            },
            None => false,
        };
        Ok(ProbeInfo { content_length, accepts_ranges })
    }
}

/// How a resource is fetched.
#[derive(Clone, Copy, Debug, PartialEq, Eq, Structural)]
pub enum Mode {
    /// In chunks side by side; the resource has this many bytes.
    Concurrent { total: u64 },
    /// In one stream; the length may be unknown.
    Linear { expected: Option<u64> },
}

/// The mode for a probed resource: chunks where the length is known, the
/// server takes ranges, and the resource is as large as the threshold.
pub open spec fn mode_for(probe: ProbeInfo, threshold: u64) -> Mode {
    if probe.content_length.is_some() && probe.accepts_ranges && probe.content_length.unwrap()
        >= threshold {
        Mode::Concurrent { total: probe.content_length.unwrap() }
    } else {
        Mode::Linear { expected: probe.content_length }
    }
}

/// A byte range of a resource, fetched by one worker.
#[derive(Clone, Copy, Debug, PartialEq, Eq, Structural)]
pub struct Chunk {
    pub index: usize,
    /// Offset of the first byte.
    pub start: u64,
    /// Offset of the last byte.
    pub end: u64,
    pub len: u64,
}

/// The chunk at `index` of `count` equal chunks of `total` bytes; the last
/// chunk takes what is left over.
pub open spec fn chunk_at(total: u64, count: usize, index: usize) -> Chunk
    recommends
        0 < count <= total,
        index < count,
{
    let size = total as int / count as int;
    let start = index as int * size;
    let end = if index + 1 == count {
        total as int - 1
    } else {
        (index as int + 1) * size - 1
    };
    Chunk { index, start: start as u64, end: end as u64, len: (end - start + 1) as u64 }
}

/// Whether chunks cover `[0, total)` without gap or overlap: each chunk has
/// its place as index and at least one byte, ends where its length says,
/// and is followed at once by the next.
pub open spec fn is_partition(chunks: Seq<Chunk>, total: u64) -> bool {
    &&& chunks.len() > 0
    &&& chunks[0].start == 0
    &&& chunks.last().end + 1 == total
    &&& forall|i: int|
        0 <= i < chunks.len() ==> (#[trigger] chunks[i]).index == i && chunks[i].len >= 1
            && chunks[i].end == chunks[i].start + chunks[i].len - 1
    &&& forall|i: int| 0 <= i < chunks.len() - 1 ==> (#[trigger] chunks[i]).end + 1 == chunks[i + 1].start
}

/// The bytes of all chunks together.
pub open spec fn total_len(chunks: Seq<Chunk>) -> int
    decreases chunks.len(),
{
    if chunks.len() == 0 {
        0
    } else {
        total_len(chunks.drop_last()) + chunks.last().len
    }
}

proof fn lemma_prefix_len(chunks: Seq<Chunk>, total: u64, k: int)
    requires
        is_partition(chunks, total),
        1 <= k <= chunks.len(),
    ensures
        total_len(chunks.take(k)) == chunks[k - 1].end + 1,
    decreases k,
{
    let head = chunks.take(k);
    assert(head.drop_last() =~= chunks.take(k - 1));
    assert(head.last() == chunks[k - 1]);
    if k == 1 {
        assert(total_len(chunks.take(0)) == 0);
    } else {
        lemma_prefix_len(chunks, total, k - 1);
        assert(chunks[k - 2].end + 1 == chunks[k - 2 + 1].start);
    }
}

/// Transport length invariant, for chunks. The chunks of a partition of
/// `[0, total)` hold `total` bytes between them: a download in which every
/// chunk has received its length has received the length of the resource.
pub proof fn partition_covers_total(chunks: Seq<Chunk>, total: u64)
    requires
        is_partition(chunks, total),
    ensures
        total_len(chunks) == total,
{
    lemma_prefix_len(chunks, total, chunks.len() as int);
    assert(chunks.take(chunks.len() as int) =~= chunks);
}

/// Cuts `total` bytes into `count` chunks of equal size, the last one taking
/// what is left over. There is no such cut into no chunks, nor of fewer
/// bytes than chunks.
pub fn plan_chunks(total: u64, count: usize) -> (plan: Option<Vec<Chunk>>)
    ensures
        plan.is_some() <==> 0 < count && count <= total,
        plan.is_some() ==> plan.unwrap().len() == count && is_partition(plan.unwrap()@, total)
            && forall|i: int|
            0 <= i < count ==> #[trigger] plan.unwrap()@[i] == chunk_at(total, count, i as usize),
{
    if count == 0 || count as u64 > total {
        return None;
    }
    let size: u64 = total / (count as u64);
    let mut chunks: Vec<Chunk> = Vec::new();
    let mut i: usize = 0;
    assert(size >= 1 && size * count <= total) by (nonlinear_arith)
        requires
            size == total / (count as u64),
            0 < count <= total,
    ;
    while i < count
        invariant
            i <= count,
            0 < count <= total,
            size == total / (count as u64),
            size >= 1,
            size * count <= total,
            chunks.len() == i,
            forall|k: int| 0 <= k < i ==> #[trigger] chunks@[k] == chunk_at(total, count, k as usize),
        decreases count - i,
    {
        assert(i * size <= (i + 1) * size <= count * size) by (nonlinear_arith)
            requires
                i < count,
                size >= 1,
        ;
        assert((i + 1) * size - i * size == size) by (nonlinear_arith);
        let start: u64 = (i as u64) * size;
        let end: u64 = if i + 1 == count {
            total - 1
        } else {
            (i as u64 + 1) * size - 1
        };
        chunks.push(Chunk { index: i, start, end, len: end - start + 1 });
        i = i + 1;
    }
    proof {
        let c = chunks@;
        assert forall|k: int| 0 <= k < c.len() implies (#[trigger] c[k]).index == k && c[k].len
            >= 1 && c[k].end == c[k].start + c[k].len - 1 by {
            assert(c[k] == chunk_at(total, count, k as usize));
            assert(k * size <= (k + 1) * size <= count * size) by (nonlinear_arith)
                requires
                    0 <= k < count,
                    size >= 1,
            ;
            assert((k + 1) * size - k * size == size) by (nonlinear_arith);
        }
        assert forall|k: int| 0 <= k < c.len() - 1 implies (#[trigger] c[k]).end + 1 == c[k
            + 1].start by {
            assert(c[k] == chunk_at(total, count, k as usize));
            assert(c[k + 1] == chunk_at(total, count, (k + 1) as usize));
            assert(k * size <= (k + 1) * size <= (k + 2) * size <= count * size)
                by (nonlinear_arith)
                requires
                    0 <= k < count - 1,
                    size >= 1,
            ;
        }
        assert(c[0] == chunk_at(total, count, 0));
        assert(c[count - 1] == chunk_at(total, count, (count - 1) as usize));
        assert((count - 1) * size <= count * size) by (nonlinear_arith)
            requires
                size >= 1,
        ;
    }
    Some(chunks)
}

/// What to ask the server for, for a chunk of which some bytes are staged.
#[derive(Clone, Copy, Debug, PartialEq, Eq, Structural)]
pub enum ChunkRequest {
    /// The chunk is staged in full. Nothing is asked for.
    Complete,
    /// Ask for the bytes from `first` to `last` and append them.
    Fetch { first: u64, last: u64 },
    /// More is staged than the chunk holds. Empty the part and ask for all of it.
    Restart { first: u64, last: u64 },
}

/// The request that goes on where the staged bytes of a chunk end.
pub open spec fn request_for(chunk: Chunk, staged: u64) -> ChunkRequest {
    if staged == chunk.len {
        ChunkRequest::Complete
    } else if staged < chunk.len && chunk.start + staged <= chunk.end {
        ChunkRequest::Fetch { first: (chunk.start + staged) as u64, last: chunk.end }
    } else {
        ChunkRequest::Restart { first: chunk.start, last: chunk.end }
    }
}

/// A download goes on where it stopped. For a chunk that ends where its
/// length says, of which fewer bytes are staged than it holds, exactly the
/// bytes that are missing are asked for, from the first of them to the last
/// of the chunk; once they have come in, the chunk is whole.
pub proof fn resume_asks_for_what_is_missing(chunk: Chunk, staged: u64)
    requires
        chunk.end == chunk.start + chunk.len - 1,
        staged < chunk.len,
    ensures
        request_for(chunk, staged) == (ChunkRequest::Fetch {
            first: (chunk.start + staged) as u64,
            last: chunk.end,
        }),
        chunk.end - (chunk.start + staged) + 1 == chunk.len - staged,
        chunk_verdict(chunk, staged, (chunk.len - staged) as u64) is Ok,
{
}

/// Decides what to ask for, for `chunk` with `staged` bytes on disk.
pub fn resume_request(chunk: &Chunk, staged: u64) -> (request: ChunkRequest)
    ensures
        request == request_for(*chunk, staged),
{
    if staged == chunk.len {
        ChunkRequest::Complete
    } else if staged < chunk.len && chunk.end >= chunk.start && staged <= chunk.end - chunk.start {
        ChunkRequest::Fetch { first: chunk.start + staged, last: chunk.end }
    } else {
        ChunkRequest::Restart { first: chunk.start, last: chunk.end }
    }
}

/// The value of the `Range` header for the bytes from `first` to `last`.
pub open spec fn range_value(first: u64, last: u64) -> Seq<char> {
    "bytes="@ + decimal(first as nat) + "-"@ + decimal(last as nat)
}

/// Builds the value of the `Range` header for the bytes from `first` to `last`.
pub fn range_header(first: u64, last: u64) -> (value: String)
    ensures
        value@ == range_value(first, last),
{
    let mut out = chars_of("bytes=");
    push_decimal(&mut out, first);
    push_str(&mut out, "-");
    push_decimal(&mut out, last);
    string_of(out.as_slice())
}

/// Whether the bytes received make up what was expected.
pub open spec fn length_verdict(received: u64, expected: Option<u64>) -> Result<
    (),
    TransportErrorView,
> {
    match expected {
        Some(total) => if received == total {
            Ok(())
        } else {
            Err(
                TransportErrorView::Validation(
                    "Expected "@ + decimal(total as nat) + ", got "@ + decimal(received as nat),
                ),
            )
        },
        None => Ok(()),
    }
}

/// Transport length invariant, for one stream. Checks a finished stream
/// against the advertised length: where the server gave a length, the
/// stream passes exactly if it brought that many bytes.
pub fn validate_length(received: u64, expected: Option<u64>) -> (r: Result<(), TransportError>)
    ensures
        result_view(r) == length_verdict(received, expected),
        expected.is_some() ==> (r.is_ok() <==> received == expected.unwrap()),
{
    match expected {
        Some(total) => {
            if received == total {
                Ok(())
            } else {
                let mut out = chars_of("Expected ");
                push_decimal(&mut out, total);
                push_str(&mut out, ", got ");
                push_decimal(&mut out, received);
                Err(TransportError::Validation(string_of(out.as_slice())))
            }
        },
        None => Ok(()),
    }
}

/// Whether a chunk is whole after an attempt that found `staged` bytes and
/// received `received` more.
pub open spec fn chunk_verdict(chunk: Chunk, staged: u64, received: u64) -> Result<
    (),
    TransportErrorView,
> {
    if staged as int + received as int == chunk.len {
        Ok(())
    } else {
        Err(
            TransportErrorView::Validation(
                "Chunk incomplete. Got "@ + decimal((staged as int + received as int) as nat)
                    + ", expected "@ + decimal(chunk.len as nat),
            ),
        )
    }
}

/// Checks a chunk after an attempt.
pub fn validate_chunk(chunk: &Chunk, staged: u64, received: u64) -> (r: Result<
    (),
    TransportError,
>)
    requires
        staged as int + received as int <= u64::MAX,
    ensures
        result_view(r) == chunk_verdict(*chunk, staged, received),
{
    let got: u64 = staged + received;
    if got == chunk.len {
        Ok(())
    } else {
        let mut out = chars_of("Chunk incomplete. Got ");
        push_decimal(&mut out, got);
        push_str(&mut out, ", expected ");
        push_decimal(&mut out, chunk.len);
        Err(TransportError::Validation(string_of(out.as_slice())))
    }
}

/// What follows a failed attempt.
#[derive(Debug)]
pub enum RetryStep {
    /// Wait this many milliseconds and try again.
    RetryAfter(u64),
    /// Give up with this error.
    Fail(TransportError),
}

pub ghost enum RetryStepView {
    RetryAfter(u64),
    Fail(TransportErrorView),
}

impl View for RetryStep {
    type V = RetryStepView;

    open spec fn view(&self) -> RetryStepView {
        match *self {
            RetryStep::RetryAfter(ms) => RetryStepView::RetryAfter(ms),
            RetryStep::Fail(e) => RetryStepView::Fail(e@),
        }
    }
}

/// What follows a failed attempt at a linear download, before which
/// `attempts` delays were handed out of `max` in all. A missing resource
/// ends the download with that error. Any other failure is answered with
/// the next delay, until the attempts are used up.
pub open spec fn linear_retry(error: TransportErrorView, base: nat, attempts: nat, max: nat) -> RetryStepView {
    if error == TransportErrorView::HttpStatus(404) {
        RetryStepView::Fail(error)
    } else if attempts < max {
        RetryStepView::RetryAfter(backoff_delay_ms(base, attempts) as u64)
    } else {
        RetryStepView::Fail(TransportErrorView::MaxRetriesExceeded)
    }
}

/// Decides what follows a failed attempt at a linear download. The staged
/// file of the attempt is deleted in either case.
pub fn after_linear_failure(error: TransportError, policy: &mut RetryPolicy) -> (step: RetryStep)
    ensures
        final(policy).max_retries() == old(policy).max_retries(),
        final(policy).base_delay() == old(policy).base_delay(),
        step@ == linear_retry(
            error@,
            old(policy).base_delay(),
            old(policy).attempts_made(),
            old(policy).max_retries(),
        ),
        final(policy).attempts_made() == if error@ != TransportErrorView::HttpStatus(404)
            && old(policy).attempts_made() < old(policy).max_retries() {
            old(policy).attempts_made() + 1
        } else {
            old(policy).attempts_made()
        },
{
    if error.is_fatal() {
        return RetryStep::Fail(error);
    }
    match policy.next_backoff() {
        Some(delay) => RetryStep::RetryAfter(delay),
        None => RetryStep::Fail(TransportError::MaxRetriesExceeded),
    }
}

/// What follows a failed attempt at a chunk: the next delay, or, with the
/// attempts used up, the error of the last attempt.
pub open spec fn chunk_retry(error: TransportErrorView, base: nat, attempts: nat, max: nat) -> RetryStepView {
    if attempts < max {
        RetryStepView::RetryAfter(backoff_delay_ms(base, attempts) as u64)
    } else {
        RetryStepView::Fail(error)
    }
}

/// Decides what follows a failed attempt at a chunk. The staged part stays
/// as it is, for the next attempt or a later run to go on from.
pub fn after_chunk_failure(error: TransportError, policy: &mut RetryPolicy) -> (step: RetryStep)
    ensures
        final(policy).max_retries() == old(policy).max_retries(),
        final(policy).base_delay() == old(policy).base_delay(),
        step@ == chunk_retry(
            error@,
            old(policy).base_delay(),
            old(policy).attempts_made(),
            old(policy).max_retries(),
        ),
{
    match policy.next_backoff() {
        Some(delay) => RetryStep::RetryAfter(delay),
        None => RetryStep::Fail(error),
    }
}

/// Whether every chunk came in.
pub open spec fn all_succeeded(results: Seq<bool>) -> bool {
    forall|i: int| 0 <= i < results.len() ==> #[trigger] results[i]
}

/// The outcome of a concurrent download, by how its chunks ended: it
/// succeeds only if every chunk did.
pub fn concurrent_outcome(results: &Vec<bool>) -> (r: Result<(), TransportError>)
    ensures
        r.is_ok() <==> all_succeeded(results@),
        r.is_err() ==> r.unwrap_err()@ == TransportErrorView::Validation(
            "One or more chunks failed"@,
        ),
{
    let mut i: usize = 0;
    while i < results.len()
        invariant
            i <= results.len(),
            forall|k: int| 0 <= k < i ==> #[trigger] results@[k],
        decreases results.len() - i,
    {
        if !results[i] {
            return Err(TransportError::Validation("One or more chunks failed".to_owned()));
        }
        i = i + 1;
    }
    Ok(())
}

/// The rate of a transfer that moved `bytes` in `elapsed_ms` milliseconds,
/// in bytes per second; nothing where no time has passed.
pub open spec fn rate_of(bytes: u64, elapsed_ms: u64) -> u64 {
    if elapsed_ms == 0 {
        0
    } else if bytes as int * 1000 / elapsed_ms as int > u64::MAX {
        u64::MAX
    } else {
        (bytes as int * 1000 / elapsed_ms as int) as u64
    }
}

/// Computes the rate of a transfer in bytes per second.
pub fn transfer_rate(bytes: u64, elapsed_ms: u64) -> (rate: u64)
    ensures
        rate == rate_of(bytes, elapsed_ms),
{
    if elapsed_ms == 0 {
        return 0;
    }
    let scaled: u128 = (bytes as u128) * 1000 / (elapsed_ms as u128);
    if scaled > u64::MAX as u128 {
        u64::MAX
    } else {
        scaled as u64
    }
}

/// One progress report: bytes so far, bytes in all, bytes per second.
#[derive(Clone, Copy, Debug, PartialEq, Eq, Structural)]
pub struct ProgressReport {
    pub downloaded: u64,
    pub total: u64,
    pub speed: u64,
}

/// What the monitor of a concurrent download reports when it looks at the
/// byte counter: nothing once the counter has reached the total, which
/// ends the monitor; else the counter, the total, and the rate since it
/// last looked.
pub open spec fn monitor_step(current: u64, total: u64, last: u64, elapsed_ms: u64) -> Option<
    ProgressReport,
> {
    if current >= total {
        None
    } else {
        Some(
            ProgressReport {
                downloaded: current,
                total,
                speed: rate_of(
                    if current >= last {
                        (current - last) as u64
                    } else {
                        0
                    },
                    elapsed_ms,
                ),
            },
        )
    }
}

/// Decides what the monitor of a concurrent download reports. `current` is
/// the byte counter now, `last` what it was when the monitor last looked,
/// `elapsed_ms` the time since then.
pub fn monitor_report(current: u64, total: u64, last: u64, elapsed_ms: u64) -> (report: Option<
    ProgressReport,
>)
    ensures
        report == monitor_step(current, total, last, elapsed_ms),
        report.is_some() ==> report.unwrap().downloaded < total && report.unwrap().total == total,
{
    if current >= total {
        None
    } else {
        let moved: u64 = if current >= last {
            current - last
        } else {
            0
        };
        Some(
            ProgressReport { downloaded: current, total, speed: transfer_rate(moved, elapsed_ms) },
        )
    }
}

/// The last report of a download of `total` bytes that succeeded: all is there.
pub open spec fn completion_report(total: u64) -> ProgressReport {
    ProgressReport { downloaded: total, total, speed: 0 }
}

/// How a concurrent download ends once its parts are merged and the file
/// is put in place: with the last report where that went well, else with
/// the error.
pub open spec fn concurrent_end(finalized: Result<(), TransportErrorView>, total: u64) -> Result<
    ProgressReport,
    TransportErrorView,
> {
    match finalized {
        Ok(_) => Ok(completion_report(total)),
        Err(e) => Err(e),
    }
}

/// Decides how a concurrent download of `total` bytes ends, given how
/// putting the merged file in place went.
pub fn finish_concurrent(finalized: Result<(), TransportError>, total: u64) -> (r: Result<
    ProgressReport,
    TransportError,
>)
    ensures
        result_view(r) == concurrent_end(result_view(finalized), total),
{
    match finalized {
        Ok(_) => Ok(ProgressReport { downloaded: total, total, speed: 0 }),
        Err(e) => Err(e),
    }
}

/// One look of the monitor at the byte counter.
pub ghost struct Sample {
    pub current: u64,
    pub last: u64,
    pub elapsed_ms: u64,
}

/// What the monitor reports over its looks at the counter, up to the look
/// that ends it.
pub open spec fn monitor_reports(samples: Seq<Sample>, total: u64) -> Seq<ProgressReport>
    decreases samples.len(),
{
    if samples.len() == 0 {
        Seq::empty()
    } else {
        match monitor_step(
            samples.first().current,
            total,
            samples.first().last,
            samples.first().elapsed_ms,
        ) {
            None => Seq::empty(),
            Some(report) => seq![report] + monitor_reports(samples.drop_first(), total),
        }
    }
}

/// All reports of a concurrent download that succeeded: what the monitor
/// reported, then the last report.
pub open spec fn concurrent_reports(samples: Seq<Sample>, total: u64) -> Seq<ProgressReport> {
    monitor_reports(samples, total).push(completion_report(total))
}

proof fn lemma_monitor_reports_below_total(samples: Seq<Sample>, total: u64)
    ensures
        forall|k: int|
            0 <= k < monitor_reports(samples, total).len() ==> (#[trigger] monitor_reports(
                samples,
                total,
            )[k]).downloaded < total && monitor_reports(samples, total)[k].total == total,
    decreases samples.len(),
{
    if samples.len() > 0 {
        let first = monitor_step(
            samples.first().current,
            total,
            samples.first().last,
            samples.first().elapsed_ms,
        );
        if first.is_some() {
            lemma_monitor_reports_below_total(samples.drop_first(), total);
            let rest = monitor_reports(samples.drop_first(), total);
            let all = monitor_reports(samples, total);
            assert forall|k: int| 0 <= k < all.len() implies (#[trigger] all[k]).downloaded < total
                && all[k].total == total by {
                if k > 0 {
                    assert(all[k] == rest[k - 1]);
                }
            }
        }
    }
}

/// The last report of a concurrent download that succeeded says that all
/// of the total is there, and no report before it reaches the total.
pub proof fn last_report_is_the_total(samples: Seq<Sample>, total: u64)
    ensures
        concurrent_reports(samples, total).last() == completion_report(total),
        concurrent_reports(samples, total).last().downloaded == total,
        forall|k: int|
            0 <= k < concurrent_reports(samples, total).len() - 1 ==> (
            #[trigger] concurrent_reports(samples, total)[k]).downloaded < total,
{
    lemma_monitor_reports_below_total(samples, total);
    let before = monitor_reports(samples, total);
    let all = concurrent_reports(samples, total);
    assert forall|k: int| 0 <= k < all.len() - 1 implies (#[trigger] all[k]).downloaded
        < total by {
        assert(all[k] == before[k]);
    }
}

/// What happened to one read from the response.
#[derive(Debug)]
pub enum ReadEvent {
    /// This many bytes came in and were written to the staged file.
    Bytes(u64),
    /// The response has ended.
    End,
    /// The read failed, for the reason given.
    Failed(String),
    /// Nothing came in for [`IO_TIMEOUT_SECS`] seconds.
    TimedOut,
}

pub ghost enum ReadEventView {
    Bytes(u64),
    End,
    Failed(Seq<char>),
    TimedOut,
}

impl View for ReadEvent {
    type V = ReadEventView;

    open spec fn view(&self) -> ReadEventView {
        match *self {
            ReadEvent::Bytes(n) => ReadEventView::Bytes(n),
            ReadEvent::End => ReadEventView::End,
            ReadEvent::Failed(reason) => ReadEventView::Failed(reason@),
            ReadEvent::TimedOut => ReadEventView::TimedOut,
        }
    }
}

/// What follows one read from the response.
#[derive(Debug)]
pub enum ReadAction {
    /// Read on; this many bytes have come in so far.
    Continue { received: u64 },
    /// The response is through; check the length of what came in.
    Finish { received: u64 },
    /// The attempt has failed.
    Fail(TransportError),
}

pub ghost enum ReadActionView {
    Continue { received: u64 },
    Finish { received: u64 },
    Fail(TransportErrorView),
}

impl View for ReadAction {
    type V = ReadActionView;

    open spec fn view(&self) -> ReadActionView {
        match *self {
            ReadAction::Continue { received } => ReadActionView::Continue { received },
            ReadAction::Finish { received } => ReadActionView::Finish { received },
            ReadAction::Fail(e) => ReadActionView::Fail(e@),
        }
    }
}

/// What the error of a read that timed out says.
pub open spec fn timeout_text() -> Seq<char> {
    "Timed out reading the response"@
}

/// The step that follows one read, after `received` bytes have come in.
/// Bytes are counted, the largest number standing for anything beyond it.
/// A read that fails is a network error. A read that times out is a
/// file-system error; either way the attempt has failed.
pub open spec fn read_step(received: u64, event: ReadEventView) -> ReadActionView {
    match event {
        ReadEventView::Bytes(n) => ReadActionView::Continue {
            received: if received + n > u64::MAX {
                u64::MAX
            } else {
                (received + n) as u64
            },
        },
        ReadEventView::End => ReadActionView::Finish { received },
        ReadEventView::Failed(reason) => ReadActionView::Fail(TransportErrorView::Network(reason)),
        ReadEventView::TimedOut => ReadActionView::Fail(
            TransportErrorView::FileSystem(timeout_text()),
        ),
    }
}

/// Decides what follows one read from the response.
pub fn after_read(received: u64, event: ReadEvent) -> (action: ReadAction)
    ensures
        action@ == read_step(received, event@),
{
    match event {
        ReadEvent::Bytes(n) => ReadAction::Continue {
            received: if received > u64::MAX - n {
                u64::MAX
            } else {
                received + n
            },
        },
        ReadEvent::End => ReadAction::Finish { received },
        ReadEvent::Failed(reason) => ReadAction::Fail(TransportError::Network(reason)),
        ReadEvent::TimedOut => ReadAction::Fail(
            TransportError::FileSystem("Timed out reading the response".to_owned()),
        ),
    }
}

/// What becomes of what an attempt has staged, once the attempt has failed.
#[derive(Clone, Copy, Debug, PartialEq, Eq, Structural)]
pub enum StagedFile {
    /// The staged file is deleted; the next attempt starts afresh.
    Delete,
    /// The staged part stays, for the next attempt or a later run to go on from.
    Keep,
}

/// What becomes of the staged bytes of a failed attempt: a linear download
/// deletes them, a chunk keeps them.
pub open spec fn staged_after(mode: Mode) -> StagedFile {
    match mode {
        Mode::Linear { .. } => StagedFile::Delete,
        Mode::Concurrent { .. } => StagedFile::Keep,
    }
}

/// Decides what becomes of the staged bytes of a failed attempt.
pub fn staged_after_failure(mode: &Mode) -> (staged: StagedFile)
    ensures
        staged == staged_after(*mode),
{
    match mode {
        Mode::Linear { .. } => StagedFile::Delete,
        Mode::Concurrent { .. } => StagedFile::Keep,
    }
}

/// What a linear download reports after a read: nothing until
/// [`PROGRESS_INTERVAL_MS`] have passed since the last report; then the
/// bytes so far, the total that is reported, and the rate since the last report.
pub open spec fn linear_step(
    downloaded: u64,
    reported_total: u64,
    since_report: u64,
    elapsed_ms: u64,
) -> Option<ProgressReport> {
    if elapsed_ms >= PROGRESS_INTERVAL_MS {
        Some(
            ProgressReport {
                downloaded,
                total: reported_total,
                speed: rate_of(since_report, elapsed_ms),
            },
        )
    } else {
        None
    }
}

/// A number that stands for a path in the names of its staged parts.
pub open spec fn path_hash(path: Seq<char>) -> u64
    decreases path.len(),
{
    if path.len() == 0 {
        7
    } else {
        ((path_hash(path.drop_last()) * 31 + path.last() as u32 as int) % 0x1_0000_0000) as u64
    }
}

fn hash_path(path: &[char]) -> (h: u64)
    ensures
        h == path_hash(path@),
        h < 0x1_0000_0000,
{
    let mut h: u64 = 7;
    let mut i: usize = 0;
    proof {
        lemma_path_hash_bound(path@.take(0));
    }
    while i < path.len()
        invariant
            i <= path.len(),
            h == path_hash(path@.take(i as int)),
            h < 0x1_0000_0000,
        decreases path.len() - i,
    {
        proof {
            assert(path@.take(i + 1).drop_last() =~= path@.take(i as int));
        }
        h = (h * 31 + path[i] as u32 as u64) % 0x1_0000_0000;
        i = i + 1;
    }
    assert(path@.take(path.len() as int) =~= path@);
    h
}

proof fn lemma_path_hash_bound(path: Seq<char>)
    ensures
        path_hash(path) < 0x1_0000_0000,
    decreases path.len(),
{
    if path.len() > 0 {
        lemma_path_hash_bound(path.drop_last());
    }
}

/// Where a linear download to `target` is staged.
pub open spec fn linear_part_of(target: Seq<char>) -> Seq<char> {
    target + ".part.linear."@ + decimal(path_hash(target) as nat)
}

/// Where chunk `index` of a concurrent download to `target` is staged.
pub open spec fn chunk_part_of(target: Seq<char>, index: usize) -> Seq<char> {
    target + ".part."@ + decimal(path_hash(target) as nat) + "."@ + decimal(index as nat)
}

/// Where a file that is in the way of `target` is moved to, at `unix_seconds`.
pub open spec fn aside_path_of(target: Seq<char>, unix_seconds: u64) -> Seq<char> {
    target + ".old."@ + decimal(unix_seconds as nat)
}

/// The engine for one download.
#[derive(Debug)]
pub struct TransportEngine {
    url: String,
    target_path: String,
    concurrency: usize,
    chunk_threshold: u64,
    fallback_size: Option<u64>,
}

pub ghost struct TransportEngineView {
    pub url: Seq<char>,
    pub target_path: Seq<char>,
    pub concurrency: usize,
    pub chunk_threshold: u64,
    pub fallback_size: Option<u64>,
}

impl View for TransportEngine {
    type V = TransportEngineView;

    closed spec fn view(&self) -> TransportEngineView {
        TransportEngineView {
            url: self.url@,
            target_path: self.target_path@,
            concurrency: self.concurrency,
            chunk_threshold: self.chunk_threshold,
            fallback_size: self.fallback_size,
        }
    }
}

/// What to do next to put a staged file in place.
#[derive(Debug)]
pub enum FinalizeAction {
    /// Remove the file that is in the way.
    RemoveTarget,
    /// Rename the file that is in the way to this path; go on whether or
    /// not that works.
    MoveTargetAside(String),
    /// Rename the staged file to the target.
    RenameStaged,
    /// Set these permission bits on the target, where the system has them.
    /// The download has succeeded.
    Finish(u32),
    Fail(TransportError),
}

pub ghost enum FinalizeActionView {
    RemoveTarget,
    MoveTargetAside(Seq<char>),
    RenameStaged,
    Finish(u32),
    Fail(TransportErrorView),
}

impl View for FinalizeAction {
    type V = FinalizeActionView;

    open spec fn view(&self) -> FinalizeActionView {
        match *self {
            FinalizeAction::RemoveTarget => FinalizeActionView::RemoveTarget,
            FinalizeAction::MoveTargetAside(p) => FinalizeActionView::MoveTargetAside(p@),
            FinalizeAction::RenameStaged => FinalizeActionView::RenameStaged,
            FinalizeAction::Finish(mode) => FinalizeActionView::Finish(mode),
            FinalizeAction::Fail(e) => FinalizeActionView::Fail(e@),
        }
    }
}

/// What happened to a step of putting a staged file in place.
#[derive(Debug)]
pub enum FinalizeEvent {
    /// Nothing was done yet; says whether the target exists.
    Start { target_exists: bool },
    Removed,
    /// The target could not be removed for want of permission.
    RemoveDenied { unix_seconds: u64 },
    /// The target could not be removed, for the reason given.
    RemoveFailed(String),
    /// The target was moved aside, or could not be and is still there.
    MovedAside,
    Renamed,
    RenameFailed(String),
}

pub ghost enum FinalizeEventView {
    Start { target_exists: bool },
    Removed,
    RemoveDenied { unix_seconds: u64 },
    RemoveFailed(Seq<char>),
    MovedAside,
    Renamed,
    RenameFailed(Seq<char>),
}

impl View for FinalizeEvent {
    type V = FinalizeEventView;

    open spec fn view(&self) -> FinalizeEventView {
        match *self {
            FinalizeEvent::Start { target_exists } => FinalizeEventView::Start { target_exists },
            FinalizeEvent::Removed => FinalizeEventView::Removed,
            FinalizeEvent::RemoveDenied { unix_seconds } => FinalizeEventView::RemoveDenied {
                unix_seconds,
            },
            FinalizeEvent::RemoveFailed(e) => FinalizeEventView::RemoveFailed(e@),
            FinalizeEvent::MovedAside => FinalizeEventView::MovedAside,
            FinalizeEvent::Renamed => FinalizeEventView::Renamed,
            FinalizeEvent::RenameFailed(e) => FinalizeEventView::RenameFailed(e@),
        }
    }
}

/// The step that follows an event while a staged file is put in place of
/// `target`. A target in the way is removed; where that is denied it is
/// moved aside; then the staged file is renamed to the target.
pub open spec fn finalize_step(target: Seq<char>, event: FinalizeEventView) -> FinalizeActionView {
    match event {
        FinalizeEventView::Start { target_exists } => if target_exists {
            FinalizeActionView::RemoveTarget
        } else {
            FinalizeActionView::RenameStaged
        },
        FinalizeEventView::Removed => FinalizeActionView::RenameStaged,
        FinalizeEventView::RemoveDenied { unix_seconds } => FinalizeActionView::MoveTargetAside(
            aside_path_of(target, unix_seconds),
        ),
        FinalizeEventView::RemoveFailed(reason) => FinalizeActionView::Fail(
            TransportErrorView::FileSystem(reason),
        ),
        FinalizeEventView::MovedAside => FinalizeActionView::RenameStaged,
        FinalizeEventView::Renamed => FinalizeActionView::Finish(FINISHED_FILE_MODE),
        FinalizeEventView::RenameFailed(reason) => FinalizeActionView::Fail(
            TransportErrorView::FileSystem(reason),
        ),
    }
}

/// The parts that are appended to the first part, in order, by a merge of
/// `count` parts; each is deleted once it is copied.
pub open spec fn merge_sources(target: Seq<char>, count: usize) -> Seq<Seq<char>>
    decreases count,
{
    if count <= 1 {
        Seq::empty()
    } else {
        merge_sources(target, (count - 1) as usize).push(chunk_part_of(target, (count - 1) as usize))
    }
}

impl TransportEngine {
    /// The engine for a download of `url` to `target_path`.
    pub fn new(url: &str, target_path: String) -> (engine: Self)
        ensures
            engine@ == (TransportEngineView {
                url: url@,
                target_path: target_path@,
                concurrency: DEFAULT_CONCURRENCY,
                chunk_threshold: CHUNK_THRESHOLD,
                fallback_size: None,
            }),
    {
        TransportEngine {
            url: url.to_owned(),
            target_path,
            concurrency: DEFAULT_CONCURRENCY,
            chunk_threshold: CHUNK_THRESHOLD,
            fallback_size: None,
        }
    }

    /// The engine with a length to report where the server gives none.
    pub fn with_fallback_size(self, size: u64) -> (engine: Self)
        ensures
            engine@ == (TransportEngineView { fallback_size: Some(size), ..self@ }),
    {
        let mut engine = self;
        engine.fallback_size = Some(size);
        engine
    }

    /// What is downloaded.
    pub fn url(&self) -> (url: &str)
        ensures
            url@ == self@.url,
    {
        self.url.as_str()
    }

    /// Where the finished file goes.
    pub fn target_path(&self) -> (path: &str)
        ensures
            path@ == self@.target_path,
    {
        self.target_path.as_str()
    }

    /// The mode in which a probed resource is fetched.
    pub fn select_mode(&self, probe: &ProbeInfo) -> (mode: Mode)
        ensures
            mode == mode_for(*probe, self@.chunk_threshold),
    {
        match probe.content_length {
            Some(total) => {
                if probe.accepts_ranges && total >= self.chunk_threshold {
                    Mode::Concurrent { total }
                } else {
                    Mode::Linear { expected: probe.content_length }
                }
            },
            None => Mode::Linear { expected: None },
        }
    }

    /// The chunks of a concurrent download of `total` bytes.
    pub fn chunks(&self, total: u64) -> (plan: Option<Vec<Chunk>>)
        ensures
            plan.is_some() <==> 0 < self@.concurrency && self@.concurrency <= total,
            plan.is_some() ==> plan.unwrap().len() == self@.concurrency && is_partition(
                plan.unwrap()@,
                total,
            ) && forall|i: int|
                0 <= i < self@.concurrency ==> #[trigger] plan.unwrap()@[i] == chunk_at(
                    total,
                    self@.concurrency,
                    i as usize,
                ),
    {
        plan_chunks(total, self.concurrency)
    }

    /// The total that goes out with a progress report: the length that the
    /// server gave, else the fallback, else nothing.
    pub fn reported_total(&self, advertised: Option<u64>) -> (total: u64)
        ensures
            total == match advertised {
                Some(t) => t,
                None => match self@.fallback_size {
                    Some(f) => f,
                    None => 0,
                },
            },
            advertised.is_none() ==> total == 0 || Some(total) == self@.fallback_size,
    {
        match advertised {
            Some(t) => t,
            None => match self.fallback_size {
                Some(f) => f,
                None => 0,
            },
        }
    }

    /// Decides what a linear download reports after a read. `advertised`
    /// is the length that the server gave, `since_report` the bytes that
    /// came in since the last report, `elapsed_ms` the time since then.
    pub fn linear_report(
        &self,
        downloaded: u64,
        advertised: Option<u64>,
        since_report: u64,
        elapsed_ms: u64,
    ) -> (report: Option<ProgressReport>)
        ensures
            report == linear_step(
                downloaded,
                match advertised {
                    Some(t) => t,
                    None => match self@.fallback_size {
                        Some(f) => f,
                        None => 0,
                    },
                },
                since_report,
                elapsed_ms,
            ),
    {
        if elapsed_ms >= PROGRESS_INTERVAL_MS {
            Some(
                ProgressReport {
                    downloaded,
                    total: self.reported_total(advertised),
                    speed: transfer_rate(since_report, elapsed_ms),
                },
            )
        } else {
            None
        }
    }

    /// Where a linear download is staged.
    pub fn linear_part_path(&self) -> (path: String)
        ensures
            path@ == linear_part_of(self@.target_path),
    {
        let target = chars_of(self.target_path.as_str());
        let mut out = chars_of(self.target_path.as_str());
        push_str(&mut out, ".part.linear.");
        push_decimal(&mut out, hash_path(target.as_slice()));
        string_of(out.as_slice())
    }

    /// Where chunk `index` is staged.
    pub fn chunk_part_path(&self, index: usize) -> (path: String)
        ensures
            path@ == chunk_part_of(self@.target_path, index),
    {
        let target = chars_of(self.target_path.as_str());
        let mut out = chars_of(self.target_path.as_str());
        push_str(&mut out, ".part.");
        push_decimal(&mut out, hash_path(target.as_slice()));
        push_str(&mut out, ".");
        push_decimal(&mut out, index as u64);
        string_of(out.as_slice())
    }

    /// The parts that a merge appends to the first part, in order.
    pub fn merge_plan(&self, count: usize) -> (sources: Vec<String>)
        ensures
            views(sources@) == merge_sources(self@.target_path, count),
    {
        let mut sources: Vec<String> = Vec::new();
        let mut i: usize = 1;
        assert(views(sources@) =~= Seq::empty());
        if count <= 1 {
            return sources;
        }
        while i < count
            invariant
                1 <= i <= count,
                views(sources@) == merge_sources(self@.target_path, i),
            decreases count - i,
        {
            let ghost done = views(sources@);
            sources.push(self.chunk_part_path(i));
            assert(views(sources@) =~= done.push(chunk_part_of(self@.target_path, i)));
            i = i + 1;
        }
        sources
    }

    /// The step that follows an event while the staged file is put in place.
    pub fn finalize(&self, event: FinalizeEvent) -> (action: FinalizeAction)
        ensures
            action@ == finalize_step(self@.target_path, event@),
    {
        match event {
            FinalizeEvent::Start { target_exists } => {
                if target_exists {
                    FinalizeAction::RemoveTarget
                } else {
                    FinalizeAction::RenameStaged
                }
            },
            FinalizeEvent::Removed => FinalizeAction::RenameStaged,
            FinalizeEvent::RemoveDenied { unix_seconds } => {
                let mut out = chars_of(self.target_path.as_str());
                push_str(&mut out, ".old.");
                push_decimal(&mut out, unix_seconds);
                FinalizeAction::MoveTargetAside(string_of(out.as_slice()))
            },
            FinalizeEvent::RemoveFailed(reason) => FinalizeAction::Fail(
                TransportError::FileSystem(reason),
            ),
            FinalizeEvent::MovedAside => FinalizeAction::RenameStaged,
            FinalizeEvent::Renamed => FinalizeAction::Finish(FINISHED_FILE_MODE),
            FinalizeEvent::RenameFailed(reason) => FinalizeAction::Fail(
                TransportError::FileSystem(reason),
            ),
        }
    }
}

} // verus!
