use multiyt_dlp::stream::{
    classify_line, file_name, find_marker, format_eta, format_speed, is_within,
    parse_whole_number, percent, read_progress_record, LineEvent, Marker, Phase, StreamState,
};

const STAGE: &str = "/home/u/.multiyt-dlp/temp_downloads/0000";

#[test]
fn eta_formats() {
    assert_eq!(format_eta(0), "00:00");
    assert_eq!(format_eta(59), "00:59");
    assert_eq!(format_eta(65), "01:05");
    assert_eq!(format_eta(3_599), "59:59");
    assert_eq!(format_eta(3_600), "01:00:00");
    assert_eq!(format_eta(3_661), "01:01:01");
    assert_eq!(format_eta(360_000), "100:00:00");
}

#[test]
fn speed_formats() {
    assert_eq!(format_speed(0), "0 B/s");
    assert_eq!(format_speed(500), "500 B/s");
    assert_eq!(format_speed(1_023), "1023 B/s");
    assert_eq!(format_speed(1_024), "1.00 KiB/s");
    assert_eq!(format_speed(1_536), "1.50 KiB/s");
    assert_eq!(format_speed(1_048_575), "1024.00 KiB/s");
    assert_eq!(format_speed(1_048_576), "1.00 MiB/s");
    assert_eq!(format_speed(6_186_598), "5.90 MiB/s");
    assert_eq!(format_speed(1_073_741_824), "1.00 GiB/s");
    assert_eq!(format_speed(1_610_612_736), "1.50 GiB/s");
    assert_eq!(format_speed(1_029), "1.00 KiB/s");
    assert_eq!(format_speed(1_030), "1.01 KiB/s");
}

#[test]
fn percent_is_in_hundredths() {
    assert_eq!(percent(0, 100), 0);
    assert_eq!(percent(50, 100), 5_000);
    assert_eq!(percent(1, 3), 3_333);
    assert_eq!(percent(100, 100), 10_000);
    assert_eq!(percent(200, 100), 20_000);
    assert_eq!(percent(u64::MAX, 1), u32::MAX);
}

#[test]
fn whole_numbers() {
    assert_eq!(parse_whole_number("12"), Some(12));
    assert_eq!(parse_whole_number("12.75"), Some(12));
    assert_eq!(parse_whole_number("0.5"), Some(0));
    assert_eq!(parse_whole_number("18446744073709551615"), Some(u64::MAX));
    assert_eq!(parse_whole_number("18446744073709551616"), None);
    assert_eq!(parse_whole_number("-3"), None);
    assert_eq!(parse_whole_number("1e5"), None);
    assert_eq!(parse_whole_number("1.5E3"), None);
    assert_eq!(parse_whole_number(""), None);
    assert_eq!(parse_whole_number(".5"), None);
}

#[test]
fn file_names() {
    assert_eq!(file_name("/a/b/c.mp4").as_deref(), Some("c.mp4"));
    assert_eq!(file_name("c.mp4").as_deref(), Some("c.mp4"));
    assert_eq!(file_name("C:\\stage\\c.mp4").as_deref(), Some("c.mp4"));
    assert_eq!(file_name("/a/b/"), None);
    assert_eq!(file_name(""), None);
}

#[test]
fn paths_within_the_stage_directory() {
    assert!(is_within("/stage/a.mp4", "/stage"));
    assert!(is_within("/stage/a.mp4", "/stage/"));
    assert!(is_within("/stage/sub/a.mp4", "/stage"));
    assert!(!is_within("/stage", "/stage"));
    assert!(!is_within("/stage/", "/stage"));
    assert!(!is_within("/stagecoach/a.mp4", "/stage"));
    assert!(!is_within("/other/a.mp4", "/stage"));
    assert!(!is_within("/stage/a.mp4", ""));
}

#[test]
fn markers() {
    assert_eq!(find_marker("[download] Destination: a.mp4", true, false), Some(Marker::DownloadStart));
    assert_eq!(find_marker("[download]  12% of 3MiB", false, false), None);
    assert_eq!(find_marker("[Metadata] Adding metadata", false, false), Some(Marker::Metadata));
    assert_eq!(find_marker("[Thumbnails] x", false, false), Some(Marker::Thumbnail));
    assert_eq!(find_marker("[EmbedThumbnail] x", false, false), Some(Marker::Thumbnail));
    assert_eq!(find_marker("[Merger] Merging formats", false, false), Some(Marker::Merger));
    assert_eq!(find_marker("[ExtractAudio] x", false, false), Some(Marker::ExtractAudio));
    assert_eq!(find_marker("[FixupM3u8] x", false, true), Some(Marker::Fixup));
    assert_eq!(find_marker("[Fixup x", false, false), None);
    assert_eq!(find_marker("[MoveFiles] x", false, false), Some(Marker::MoveFiles));
    assert_eq!(find_marker("[ffmpeg] x", false, false), Some(Marker::Ffmpeg));
    assert_eq!(find_marker("[youtube] abc: Downloading webpage", true, true), None);
    assert_eq!(find_marker("", true, true), None);
}

#[test]
fn lines_are_classified_with_the_real_patterns() {
    assert!(matches!(
        classify_line("[download] Destination: clip.f137.mp4", false, STAGE),
        LineEvent::Marker(Marker::DownloadStart)
    ));
    assert!(matches!(
        classify_line("[download]   Destination: clip.mp4", true, STAGE),
        LineEvent::Marker(Marker::DownloadStart)
    ));
    assert!(matches!(classify_line("[download] 100% of 3.00MiB", false, STAGE), LineEvent::Ignored));
    assert!(matches!(
        classify_line("[FixupM3u8] Fixing MPEG-TS in MP4 container", false, STAGE),
        LineEvent::Marker(Marker::Fixup)
    ));
    assert!(matches!(classify_line("[Fixup] nothing", false, STAGE), LineEvent::Ignored));
    assert!(matches!(
        classify_line("[Merger] Merging formats into \"clip.mp4\"", false, STAGE),
        LineEvent::Marker(Marker::Merger)
    ));
    assert!(matches!(classify_line("{not json", false, STAGE), LineEvent::Ignored));
    assert!(matches!(classify_line("{\"eta\": 3}", false, STAGE), LineEvent::Progress(_)));
    assert!(matches!(classify_line("WARNING: something", true, STAGE), LineEvent::Ignored));
    let path = format!("{}/clip.mp4", STAGE);
    assert!(matches!(
        classify_line(&path, false, STAGE),
        LineEvent::OutputPath { path: ref p } if p == &format!("{}/clip.mp4", STAGE)
    ));
    assert!(matches!(classify_line(&path, true, STAGE), LineEvent::Ignored));
}

#[test]
fn progress_record_is_read_from_json() {
    let record = read_progress_record(
        "{\"downloaded_bytes\": 1048576, \"total_bytes\": 4194304, \"total_bytes_estimate\": 4200000.5, \"speed\": 1572864.73, \"eta\": 2, \"filename\": \"/stage/clip.f137.mp4\", \"status\": \"downloading\"}",
    );
    assert_eq!(record.downloaded_bytes, Some(1_048_576));
    assert_eq!(record.total_bytes, Some(4_194_304));
    assert_eq!(record.total_bytes_estimate, Some(4_200_000));
    assert_eq!(record.speed, Some(1_572_864));
    assert_eq!(record.eta, Some(2));
    assert_eq!(record.filename.as_deref(), Some("/stage/clip.f137.mp4"));
    let sparse = read_progress_record("{\"downloaded_bytes\": 5, \"speed\": null, \"eta\": \"soon\"}");
    assert_eq!(sparse.downloaded_bytes, Some(5));
    assert_eq!(sparse.total_bytes, None);
    assert_eq!(sparse.speed, None);
    assert_eq!(sparse.eta, None);
    assert_eq!(sparse.filename, None);
}

#[test]
fn progress_line_gives_an_update() {
    let mut state = StreamState::new();
    let update = state
        .on_line(
            "{\"downloaded_bytes\": 1048576, \"total_bytes\": 4194304, \"speed\": 1048576, \"eta\": 65, \"filename\": \"/stage/clip.mp4\"}",
            false,
            STAGE,
        )
        .expect("a progress record is reported");
    assert_eq!(update.percentage, 2_500);
    assert_eq!(update.speed, "1.00 MiB/s");
    assert_eq!(update.eta, "01:05");
    assert_eq!(update.filename.as_deref(), Some("clip.mp4"));
    assert_eq!(update.phase, "Downloading");
    assert_eq!(state.percentage(), 2_500);
    assert_eq!(state.phase(), Phase::Downloading);
    assert_eq!(state.filename().as_deref(), Some("clip.mp4"));
    assert_eq!(state.logs().len(), 1);
    assert_eq!(state.stderr().len(), 0);
}

#[test]
fn estimate_is_used_where_the_total_is_missing() {
    let mut state = StreamState::new();
    let update = state
        .on_line("{\"downloaded_bytes\": 50, \"total_bytes_estimate\": 200}", false, STAGE)
        .unwrap();
    assert_eq!(update.percentage, 2_500);
    assert_eq!(update.speed, "N/A");
    assert_eq!(update.eta, "N/A");
    assert_eq!(update.filename, None);
}

#[test]
fn record_without_a_total_keeps_the_percentage() {
    let mut state = StreamState::new();
    state.on_line("{\"downloaded_bytes\": 50, \"total_bytes\": 100}", false, STAGE);
    let update = state.on_line("{\"downloaded_bytes\": 70}", false, STAGE).unwrap();
    assert_eq!(update.percentage, 5_000);
    let update = state.on_line("{\"downloaded_bytes\": 70, \"total_bytes\": 0}", false, STAGE).unwrap();
    assert_eq!(update.percentage, 5_000);
}

#[test]
fn first_file_name_wins() {
    let mut state = StreamState::new();
    state.on_line("{\"filename\": \"/stage/first.mp4\"}", false, STAGE);
    let update = state.on_line("{\"filename\": \"/stage/second.m4a\"}", false, STAGE).unwrap();
    assert_eq!(update.filename.as_deref(), Some("first.mp4"));
}

#[test]
fn markers_move_the_phase() {
    let mut state = StreamState::new();
    let u = state.on_line("[download] Destination: clip.mp4", false, STAGE).unwrap();
    assert_eq!(u.phase, "Starting Download");
    assert_eq!(u.percentage, 0);
    assert_eq!(u.eta, "N/A");
    let u = state.on_line("[Metadata] Adding metadata", false, STAGE).unwrap();
    assert_eq!(u.phase, "Writing Metadata");
    assert_eq!(u.percentage, 9_900);
    let u = state.on_line("[EmbedThumbnail] mutagen", false, STAGE).unwrap();
    assert_eq!(u.phase, "Embedding Thumbnail");
    assert_eq!(u.percentage, 9_900);
    let u = state.on_line("[Merger] Merging formats", false, STAGE).unwrap();
    assert_eq!(u.phase, "Merging Formats");
    assert_eq!(u.percentage, 10_000);
    assert_eq!(u.eta, "Done");
    assert_eq!(u.speed, "N/A");
    let u = state.on_line("[ExtractAudio] Destination: a.mp3", false, STAGE).unwrap();
    assert_eq!(u.phase, "Extracting Audio");
    assert_eq!(u.eta, "Done");
    let u = state.on_line("[FixupM4a] Correcting container", false, STAGE).unwrap();
    assert_eq!(u.phase, "Fixing Container");
    assert_eq!(u.percentage, 10_000);
    let u = state.on_line("[MoveFiles] Moving file", false, STAGE).unwrap();
    assert_eq!(u.phase, "Finalizing");
    assert_eq!(u.percentage, 10_000);
    let u = state.on_line("[ffmpeg] Something", false, STAGE).unwrap();
    assert_eq!(u.phase, "Processing (FFmpeg)");
}

#[test]
fn ffmpeg_marker_is_silent_while_merging() {
    let mut state = StreamState::new();
    state.on_line("[Merger] Merging formats", false, STAGE);
    assert!(state.on_line("[ffmpeg] details", false, STAGE).is_none());
    assert_eq!(state.phase(), Phase::MergingFormats);
    state.on_line("[ExtractAudio] x", false, STAGE);
    assert!(state.on_line("[ffmpeg] details", false, STAGE).is_none());
    assert_eq!(state.phase(), Phase::ExtractingAudio);
}

#[test]
fn late_progress_does_not_undo_post_processing() {
    let mut state = StreamState::new();
    state.on_line("[Merger] Merging formats", false, STAGE);
    let u = state.on_line("{\"downloaded_bytes\": 10, \"total_bytes\": 100}", false, STAGE).unwrap();
    assert_eq!(u.phase, "Merging Formats");
    assert_eq!(u.percentage, 1_000);
    state.on_line("[MoveFiles] x", false, STAGE);
    let u = state.on_line("{\"downloaded_bytes\": 10, \"total_bytes\": 100}", false, STAGE).unwrap();
    assert_eq!(u.phase, "Downloading");
}

#[test]
fn printed_path_is_the_output() {
    let mut state = StreamState::new();
    let line = format!("  {}/My Clip.mp4  ", STAGE);
    assert!(state.on_line(&line, false, STAGE).is_none());
    assert_eq!(state.output_path(), Some(format!("{}/My Clip.mp4", STAGE)));
    assert_eq!(state.filename().as_deref(), Some("My Clip.mp4"));
    assert_eq!(state.logs(), vec![format!("{}/My Clip.mp4", STAGE)]);
}

#[test]
fn path_on_the_error_stream_is_no_output() {
    let mut state = StreamState::new();
    let line = format!("{}/clip.mp4", STAGE);
    assert!(state.on_line(&line, true, STAGE).is_none());
    assert_eq!(state.output_path(), None);
    assert_eq!(state.stderr().len(), 1);
}

#[test]
fn long_and_blank_lines_leave_no_trace() {
    let mut state = StreamState::new();
    let long = format!("[Merger] {}", "x".repeat(2_048));
    assert!(state.on_line(&long, false, STAGE).is_none());
    assert!(state.on_line("   \t ", false, STAGE).is_none());
    assert!(state.on_line("", true, STAGE).is_none());
    assert_eq!(state.logs().len(), 0);
    assert_eq!(state.stderr().len(), 0);
    assert_eq!(state.phase(), Phase::Initializing);
    let just = format!("[Merger] {}", "x".repeat(2_048 - 9));
    assert_eq!(just.len(), 2_048);
    assert!(state.on_line(&just, false, STAGE).is_some());
}

#[test]
fn buffers_keep_the_latest_lines() {
    let mut state = StreamState::new();
    for i in 0..130 {
        state.on_line(&format!("out {}", i), false, STAGE);
        state.on_line(&format!("err {}", i), true, STAGE);
    }
    let logs = state.logs();
    assert_eq!(logs.len(), 100);
    assert_eq!(logs[0], "out 80");
    assert_eq!(logs[99], "err 129");
    let stderr = state.stderr();
    assert_eq!(stderr.len(), 50);
    assert_eq!(stderr[0], "err 80");
    assert_eq!(stderr[49], "err 129");
}

#[test]
fn error_stream_lines_are_read_for_markers_too() {
    let mut state = StreamState::new();
    let u = state.on_line("[Merger] Merging", true, STAGE).unwrap();
    assert_eq!(u.phase, "Merging Formats");
    assert_eq!(state.stderr(), vec!["[Merger] Merging"]);
}

#[test]
fn phase_labels() {
    assert_eq!(Phase::Initializing.label(), "Initializing");
    assert_eq!(Phase::Downloading.label(), "Downloading");
    assert_eq!(Phase::StartingDownload.label(), "Starting Download");
    assert_eq!(Phase::WritingMetadata.label(), "Writing Metadata");
    assert_eq!(Phase::EmbeddingThumbnail.label(), "Embedding Thumbnail");
    assert_eq!(Phase::MergingFormats.label(), "Merging Formats");
    assert_eq!(Phase::ExtractingAudio.label(), "Extracting Audio");
    assert_eq!(Phase::FixingContainer.label(), "Fixing Container");
    assert_eq!(Phase::Finalizing.label(), "Finalizing");
    assert_eq!(Phase::ProcessingFfmpeg.label(), "Processing (FFmpeg)");
}
