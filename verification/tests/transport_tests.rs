use multiyt_dlp::retry::{RetryPolicy, CHUNK_MAX_RETRIES, TRANSPORT_MAX_RETRIES};
use multiyt_dlp::transport::{
    after_chunk_failure, after_linear_failure, after_read, concurrent_outcome, finish_concurrent,
    interpret_probe, monitor_report, plan_chunks, range_header, resume_request,
    staged_after_failure, transfer_rate, validate_chunk, validate_length, Chunk, ChunkRequest,
    FinalizeAction, FinalizeEvent, Mode, ProbeInfo, ProgressReport, ReadAction, ReadEvent,
    RetryStep, StagedFile, TransportEngine, TransportError, CHUNK_THRESHOLD,
    DEFAULT_CONCURRENCY, IO_TIMEOUT_SECS, PROGRESS_INTERVAL_MS,
};

const MIB: u64 = 1024 * 1024;

fn engine() -> TransportEngine {
    TransportEngine::new("https://example.com/file.zip", "/bin/dir/file.zip".to_string())
}

#[test]
fn constants() {
    assert_eq!(IO_TIMEOUT_SECS, 15);
    assert_eq!(CHUNK_THRESHOLD, 10 * MIB);
    assert_eq!(DEFAULT_CONCURRENCY, 4);
    assert_eq!(PROGRESS_INTERVAL_MS, 500);
}

#[test]
fn forty_mebibytes_in_four_chunks() {
    let total = 40 * MIB;
    let chunks = plan_chunks(total, 4).expect("there is a plan");
    assert_eq!(chunks.len(), 4);
    for (i, c) in chunks.iter().enumerate() {
        assert_eq!(c.index, i);
        assert_eq!(c.start, i as u64 * 10 * MIB);
        assert_eq!(c.len, 10 * MIB);
        assert_eq!(c.end, c.start + c.len - 1);
    }
    assert_eq!(chunks.iter().map(|c| c.len).sum::<u64>(), total);
}

#[test]
fn last_chunk_takes_the_remainder() {
    let chunks = plan_chunks(10, 4).unwrap();
    let lens: Vec<u64> = chunks.iter().map(|c| c.len).collect();
    assert_eq!(lens, vec![2, 2, 2, 4]);
    assert_eq!(chunks[0].start, 0);
    assert_eq!(chunks[3].end, 9);
    for pair in chunks.windows(2) {
        assert_eq!(pair[0].end + 1, pair[1].start);
    }
    let chunks = plan_chunks(u64::MAX, 3).unwrap();
    assert_eq!(chunks[2].end, u64::MAX - 1);
    assert_eq!(chunks.iter().map(|c| c.len as u128).sum::<u128>(), u64::MAX as u128);
}

#[test]
fn no_plan_for_too_few_bytes_or_no_chunks() {
    assert!(plan_chunks(3, 4).is_none());
    assert!(plan_chunks(0, 1).is_none());
    assert!(plan_chunks(100, 0).is_none());
    assert_eq!(plan_chunks(4, 4).unwrap().len(), 4);
    assert_eq!(plan_chunks(1, 1).unwrap()[0], Chunk { index: 0, start: 0, end: 0, len: 1 });
}

#[test]
fn probe_answers() {
    let bytes = Some("bytes".to_string());
    assert!(matches!(interpret_probe(404, Some(5), &bytes), Err(TransportError::HttpStatus(404))));
    assert_eq!(
        interpret_probe(500, Some(5), &bytes).unwrap(),
        ProbeInfo { content_length: None, accepts_ranges: false }
    );
    assert_eq!(
        interpret_probe(403, None, &None).unwrap(),
        ProbeInfo { content_length: None, accepts_ranges: false }
    );
    assert_eq!(
        interpret_probe(200, Some(5), &bytes).unwrap(),
        ProbeInfo { content_length: Some(5), accepts_ranges: true }
    );
    assert_eq!(
        interpret_probe(206, Some(5), &Some("none".to_string())).unwrap(),
        ProbeInfo { content_length: Some(5), accepts_ranges: false }
    );
    assert_eq!(
        interpret_probe(200, None, &None).unwrap(),
        ProbeInfo { content_length: None, accepts_ranges: false }
    );
    assert_eq!(
        interpret_probe(299, Some(1), &Some("items, bytes".to_string())).unwrap(),
        ProbeInfo { content_length: Some(1), accepts_ranges: true }
    );
    assert_eq!(
        interpret_probe(300, Some(1), &bytes).unwrap(),
        ProbeInfo { content_length: None, accepts_ranges: false }
    );
}

#[test]
fn mode_selection() {
    let e = engine();
    let probe = |len: Option<u64>, ranges: bool| ProbeInfo { content_length: len, accepts_ranges: ranges };
    assert_eq!(e.select_mode(&probe(Some(40 * MIB), true)), Mode::Concurrent { total: 40 * MIB });
    assert_eq!(e.select_mode(&probe(Some(10 * MIB), true)), Mode::Concurrent { total: 10 * MIB });
    assert_eq!(
        e.select_mode(&probe(Some(10 * MIB - 1), true)),
        Mode::Linear { expected: Some(10 * MIB - 1) }
    );
    assert_eq!(
        e.select_mode(&probe(Some(40 * MIB), false)),
        Mode::Linear { expected: Some(40 * MIB) }
    );
    assert_eq!(e.select_mode(&probe(None, true)), Mode::Linear { expected: None });
    assert_eq!(e.chunks(40 * MIB).unwrap().len(), 4);
}

#[test]
fn stream_must_bring_the_advertised_length() {
    assert!(validate_length(100, Some(100)).is_ok());
    assert!(validate_length(100, None).is_ok());
    assert!(validate_length(0, None).is_ok());
    match validate_length(99, Some(100)) {
        Err(TransportError::Validation(msg)) => assert_eq!(msg, "Expected 100, got 99"),
        other => panic!("unexpected {:?}", other),
    }
    assert!(validate_length(101, Some(100)).is_err());
}

#[test]
fn chunk_must_be_whole() {
    let c = Chunk { index: 1, start: 100, end: 199, len: 100 };
    assert!(validate_chunk(&c, 0, 100).is_ok());
    assert!(validate_chunk(&c, 40, 60).is_ok());
    match validate_chunk(&c, 40, 59) {
        Err(TransportError::Validation(msg)) => {
            assert_eq!(msg, "Chunk incomplete. Got 99, expected 100")
        }
        other => panic!("unexpected {:?}", other),
    }
    assert!(validate_chunk(&c, 40, 61).is_err());
}

#[test]
fn download_goes_on_where_the_part_ends() {
    let c = Chunk { index: 1, start: 100, end: 199, len: 100 };
    assert_eq!(resume_request(&c, 0), ChunkRequest::Fetch { first: 100, last: 199 });
    assert_eq!(resume_request(&c, 40), ChunkRequest::Fetch { first: 140, last: 199 });
    assert_eq!(resume_request(&c, 99), ChunkRequest::Fetch { first: 199, last: 199 });
    assert_eq!(resume_request(&c, 100), ChunkRequest::Complete);
    assert_eq!(resume_request(&c, 101), ChunkRequest::Restart { first: 100, last: 199 });
    assert_eq!(range_header(140, 199), "bytes=140-199");
    assert_eq!(range_header(0, 0), "bytes=0-0");
}

#[test]
fn linear_download_gives_up_at_once_on_a_missing_resource() {
    let mut policy = RetryPolicy::new(TRANSPORT_MAX_RETRIES);
    let step = after_linear_failure(TransportError::HttpStatus(404), &mut policy);
    assert!(matches!(step, RetryStep::Fail(TransportError::HttpStatus(404))));
    assert_eq!(policy.remaining(), 5);
}

#[test]
fn linear_download_retries_five_times() {
    let mut policy = RetryPolicy::new(TRANSPORT_MAX_RETRIES);
    let mut delays = Vec::new();
    loop {
        match after_linear_failure(TransportError::Network("reset".to_string()), &mut policy) {
            RetryStep::RetryAfter(ms) => delays.push(ms),
            RetryStep::Fail(e) => {
                assert!(matches!(e, TransportError::MaxRetriesExceeded));
                break;
            }
        }
    }
    assert_eq!(delays, vec![1_000, 2_000, 4_000, 8_000, 10_000]);
    let step = after_linear_failure(TransportError::HttpStatus(503), &mut RetryPolicy::new(1));
    assert!(matches!(step, RetryStep::RetryAfter(1_000)));
}

#[test]
fn chunk_retries_ten_times_and_keeps_its_error() {
    let mut policy = RetryPolicy::new(CHUNK_MAX_RETRIES);
    let mut retries = 0;
    loop {
        match after_chunk_failure(TransportError::HttpStatus(404), &mut policy) {
            RetryStep::RetryAfter(_) => retries += 1,
            RetryStep::Fail(e) => {
                assert!(matches!(e, TransportError::HttpStatus(404)));
                break;
            }
        }
    }
    assert_eq!(retries, 10);
}

#[test]
fn one_failed_chunk_fails_the_download() {
    assert!(concurrent_outcome(&vec![true, true, true, true]).is_ok());
    assert!(concurrent_outcome(&Vec::new()).is_ok());
    match concurrent_outcome(&vec![true, false, true, true]) {
        Err(TransportError::Validation(msg)) => assert_eq!(msg, "One or more chunks failed"),
        other => panic!("unexpected {:?}", other),
    }
}

#[test]
fn transfer_rates() {
    assert_eq!(transfer_rate(1_000, 0), 0);
    assert_eq!(transfer_rate(1_000, 500), 2_000);
    assert_eq!(transfer_rate(1, 3), 333);
    assert_eq!(transfer_rate(u64::MAX, 1), u64::MAX);
    assert_eq!(transfer_rate(0, 500), 0);
}

#[test]
fn error_messages() {
    assert_eq!(TransportError::Network("reset".to_string()).message(), "Network IO failed: reset");
    assert_eq!(TransportError::FileSystem("full".to_string()).message(), "File system failed: full");
    assert_eq!(TransportError::Validation("short".to_string()).message(), "Validation failed: short");
    assert_eq!(TransportError::HttpStatus(503).message(), "Server returned error status: 503");
    assert_eq!(TransportError::MaxRetriesExceeded.message(), "Max retries exceeded");
    assert!(TransportError::HttpStatus(404).is_fatal());
    assert!(!TransportError::HttpStatus(500).is_fatal());
    assert!(!TransportError::MaxRetriesExceeded.is_fatal());
}

#[test]
fn staged_parts_are_named_after_the_target() {
    let e = engine();
    assert_eq!(e.url(), "https://example.com/file.zip");
    assert_eq!(e.target_path(), "/bin/dir/file.zip");
    let linear = e.linear_part_path();
    assert!(linear.starts_with("/bin/dir/file.zip.part.linear."));
    assert_eq!(linear, engine().linear_part_path());
    let parts: Vec<String> = (0..4).map(|i| e.chunk_part_path(i)).collect();
    for (i, p) in parts.iter().enumerate() {
        assert!(p.starts_with("/bin/dir/file.zip.part."));
        assert!(p.ends_with(&format!(".{}", i)));
        assert_eq!(*p, engine().chunk_part_path(i));
    }
    let hash = linear.rsplit('.').next().unwrap().to_string();
    assert_eq!(parts[2], format!("/bin/dir/file.zip.part.{}.2", hash));
    let other = TransportEngine::new("https://example.com/file.zip", "/bin/dir/other.zip".to_string());
    assert_ne!(other.linear_part_path().rsplit('.').next().unwrap(), hash);
    assert_eq!(e.merge_plan(4), vec![parts[1].clone(), parts[2].clone(), parts[3].clone()]);
    assert_eq!(e.merge_plan(1).len(), 0);
    assert_eq!(e.merge_plan(0).len(), 0);
}

#[test]
fn reported_total_falls_back() {
    let e = engine();
    assert_eq!(e.reported_total(Some(77)), 77);
    assert_eq!(e.reported_total(None), 0);
    let e = engine().with_fallback_size(5_000);
    assert_eq!(e.reported_total(Some(77)), 77);
    assert_eq!(e.reported_total(None), 5_000);
}

#[test]
fn finalize_steps() {
    let e = engine();
    assert!(matches!(
        e.finalize(FinalizeEvent::Start { target_exists: false }),
        FinalizeAction::RenameStaged
    ));
    assert!(matches!(
        e.finalize(FinalizeEvent::Start { target_exists: true }),
        FinalizeAction::RemoveTarget
    ));
    assert!(matches!(e.finalize(FinalizeEvent::Removed), FinalizeAction::RenameStaged));
    assert!(matches!(
        e.finalize(FinalizeEvent::RemoveDenied { unix_seconds: 1_700_000_000 }),
        FinalizeAction::MoveTargetAside(ref p) if p == "/bin/dir/file.zip.old.1700000000"
    ));
    assert!(matches!(e.finalize(FinalizeEvent::MovedAside), FinalizeAction::RenameStaged));
    assert!(matches!(
        e.finalize(FinalizeEvent::RemoveFailed("busy".to_string())),
        FinalizeAction::Fail(TransportError::FileSystem(ref r)) if r == "busy"
    ));
    assert!(matches!(e.finalize(FinalizeEvent::Renamed), FinalizeAction::Finish(0o755)));
    assert!(matches!(
        e.finalize(FinalizeEvent::RenameFailed("cross-device".to_string())),
        FinalizeAction::Fail(TransportError::FileSystem(ref r)) if r == "cross-device"
    ));
}

#[test]
fn monitor_reports_below_the_total_only() {
    assert_eq!(
        monitor_report(1_000, 4_000, 500, 500),
        Some(ProgressReport { downloaded: 1_000, total: 4_000, speed: 1_000 })
    );
    assert_eq!(
        monitor_report(3_999, 4_000, 3_999, 500),
        Some(ProgressReport { downloaded: 3_999, total: 4_000, speed: 0 })
    );
    assert_eq!(
        monitor_report(100, 4_000, 300, 500),
        Some(ProgressReport { downloaded: 100, total: 4_000, speed: 0 })
    );
    assert_eq!(
        monitor_report(100, 4_000, 0, 0),
        Some(ProgressReport { downloaded: 100, total: 4_000, speed: 0 })
    );
    assert_eq!(monitor_report(4_000, 4_000, 3_000, 500), None);
    assert_eq!(monitor_report(4_001, 4_000, 3_000, 500), None);
    assert_eq!(monitor_report(0, 0, 0, 500), None);
}

#[test]
fn concurrent_download_ends_with_the_total() {
    let total = 40 * MIB;
    assert_eq!(
        finish_concurrent(Ok(()), total).unwrap(),
        ProgressReport { downloaded: total, total, speed: 0 }
    );
    assert!(matches!(
        finish_concurrent(Err(TransportError::FileSystem("busy".to_string())), total),
        Err(TransportError::FileSystem(ref r)) if r == "busy"
    ));
    let samples = [(0u64, 0u64), (10 * MIB, 0), (39 * MIB, 10 * MIB), (40 * MIB, 39 * MIB)];
    let mut reports = Vec::new();
    for (current, last) in samples {
        match monitor_report(current, total, last, 500) {
            Some(r) => reports.push(r),
            None => break,
        }
    }
    reports.push(finish_concurrent(Ok(()), total).unwrap());
    assert_eq!(reports.len(), 4);
    let last = reports.pop().unwrap();
    assert_eq!(last.downloaded, last.total);
    assert!(reports.iter().all(|r| r.downloaded < total && r.total == total));
}

#[test]
fn reads_are_counted_and_failures_end_the_attempt() {
    assert!(matches!(after_read(10, ReadEvent::Bytes(5)), ReadAction::Continue { received: 15 }));
    assert!(matches!(after_read(0, ReadEvent::Bytes(0)), ReadAction::Continue { received: 0 }));
    assert!(matches!(
        after_read(u64::MAX - 1, ReadEvent::Bytes(5)),
        ReadAction::Continue { received: u64::MAX }
    ));
    assert!(matches!(after_read(10, ReadEvent::End), ReadAction::Finish { received: 10 }));
    assert!(matches!(
        after_read(10, ReadEvent::Failed("reset".to_string())),
        ReadAction::Fail(TransportError::Network(ref r)) if r == "reset"
    ));
    assert!(matches!(
        after_read(10, ReadEvent::TimedOut),
        ReadAction::Fail(TransportError::FileSystem(ref r)) if r == "Timed out reading the response"
    ));
}

#[test]
fn linear_attempt_starts_afresh_and_chunks_go_on() {
    assert_eq!(staged_after_failure(&Mode::Linear { expected: Some(5) }), StagedFile::Delete);
    assert_eq!(staged_after_failure(&Mode::Linear { expected: None }), StagedFile::Delete);
    assert_eq!(staged_after_failure(&Mode::Concurrent { total: 40 * MIB }), StagedFile::Keep);
}

#[test]
fn linear_download_reports_every_half_second() {
    let e = engine();
    assert_eq!(e.linear_report(1_000, Some(4_000), 500, 499), None);
    assert_eq!(
        e.linear_report(1_000, Some(4_000), 500, 500),
        Some(ProgressReport { downloaded: 1_000, total: 4_000, speed: 1_000 })
    );
    assert_eq!(
        e.linear_report(1_000, None, 250, 1_000),
        Some(ProgressReport { downloaded: 1_000, total: 0, speed: 250 })
    );
    let e = engine().with_fallback_size(9_000);
    assert_eq!(
        e.linear_report(1_000, None, 0, 600),
        Some(ProgressReport { downloaded: 1_000, total: 9_000, speed: 0 })
    );
}
