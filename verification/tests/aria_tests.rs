use multiyt_dlp::aria::{parse_aria_size, AriaEngine, AriaProgress};
use multiyt_dlp::transport::TransportError;

fn engine(fallback: Option<u64>) -> AriaEngine {
    AriaEngine::new(
        "https://example.com/ffmpeg.zip",
        "/tmp/dl/ffmpeg_tmp".to_string(),
        "/bin/managed/aria2c".to_string(),
        fallback,
    )
}

fn groups(items: &[Option<&str>]) -> Option<Vec<Option<String>>> {
    Some(items.iter().map(|g| g.map(|s| s.to_string())).collect())
}

#[test]
fn sizes_with_binary_units() {
    assert_eq!(parse_aria_size("53MiB"), Some(55_574_528));
    assert_eq!(parse_aria_size("5.9KiB"), Some(6_041));
    assert_eq!(parse_aria_size("100B"), Some(100));
    assert_eq!(parse_aria_size("1.5GiB"), Some(1_610_612_736));
    assert_eq!(parse_aria_size("5.9MiB"), Some(6_186_598));
    assert_eq!(parse_aria_size("0B"), Some(0));
    assert_eq!(parse_aria_size("691MiB"), Some(724_566_016));
    assert_eq!(parse_aria_size("  2KiB \n"), Some(2_048));
}

#[test]
fn sizes_without_unit_count_bytes() {
    assert_eq!(parse_aria_size("12"), Some(12));
    assert_eq!(parse_aria_size("12.9"), Some(12));
    assert_eq!(parse_aria_size("5."), Some(5));
    assert_eq!(parse_aria_size(".5"), Some(0));
}

#[test]
fn what_is_no_size() {
    assert_eq!(parse_aria_size("abc"), None);
    assert_eq!(parse_aria_size(""), None);
    assert_eq!(parse_aria_size("MiB"), None);
    assert_eq!(parse_aria_size("1.2.3MiB"), None);
    assert_eq!(parse_aria_size("-5B"), None);
    assert_eq!(parse_aria_size("5 MiB"), None);
    assert_eq!(parse_aria_size("5mib"), None);
    assert_eq!(parse_aria_size("."), None);
    assert_eq!(parse_aria_size("B"), None);
}

#[test]
fn repeated_units_and_large_numbers() {
    assert_eq!(parse_aria_size("5MiBMiB"), Some(5_242_880));
    assert_eq!(parse_aria_size("99999999999999999999GiB"), Some(u64::MAX));
    assert_eq!(parse_aria_size("18446744073709551615B"), Some(u64::MAX));
    assert_eq!(parse_aria_size("17179869184GiB"), Some(u64::MAX));
    assert_eq!(parse_aria_size("1.9999999999999MiB"), Some(2_097_151));
}

#[test]
fn full_status_line_is_read() {
    let e = engine(None);
    let p = e
        .on_line("[#42b0a0 53MiB/691MiB(7%) CN:16 DL:5.9MiB ETA:1m47s]")
        .expect("a status line is read");
    assert_eq!(p, AriaProgress { downloaded: 55_574_528, total: 724_566_016, speed: 6_186_598 });
}

#[test]
fn unknown_total_falls_back() {
    let p = engine(Some(1_000_000)).on_line("[#1 0B/0B(0%) CN:1 DL:0B]").unwrap();
    assert_eq!(p, AriaProgress { downloaded: 0, total: 1_000_000, speed: 0 });
    let p = engine(None).on_line("[#1 0B/0B(0%) CN:1 DL:0B]").unwrap();
    assert_eq!(p, AriaProgress { downloaded: 0, total: 0, speed: 0 });
}

#[test]
fn percentage_alone_is_a_share_of_the_fallback() {
    let p = engine(Some(1_000)).on_line("[#1 (7%)]").unwrap();
    assert_eq!(p, AriaProgress { downloaded: 70, total: 1_000, speed: 0 });
    let p = engine(Some(1_000)).on_line("[#1 (12.5%)]").unwrap();
    assert_eq!(p, AriaProgress { downloaded: 125, total: 1_000, speed: 0 });
    let p = engine(None).on_line("[#1 (50%)]").unwrap();
    assert_eq!(p, AriaProgress { downloaded: 0, total: 0, speed: 0 });
    let p = engine(Some(4_000_000_000)).on_line("(100%)").unwrap();
    assert_eq!(p, AriaProgress { downloaded: 4_000_000_000, total: 4_000_000_000, speed: 0 });
}

#[test]
fn other_lines_say_nothing() {
    let e = engine(Some(1_000));
    assert_eq!(e.on_line("Download Results:"), None);
    assert_eq!(e.on_line(""), None);
    assert_eq!(e.on_line("(1.2.3%)"), None);
}

#[test]
fn status_is_read_from_groups() {
    let e = engine(Some(500));
    let full = groups(&[Some("1KiB/2KiB(50%) DL:3KiB"), Some("1KiB"), Some("2KiB"), Some("50"), Some("3KiB")]);
    assert_eq!(
        e.read_status(&full, &None),
        Some(AriaProgress { downloaded: 1_024, total: 2_048, speed: 3_072 })
    );
    let odd = groups(&[Some("x"), Some("junk"), None]);
    assert_eq!(e.read_status(&odd, &None), Some(AriaProgress { downloaded: 0, total: 500, speed: 0 }));
    let percent = groups(&[Some("(20%)"), Some("20")]);
    assert_eq!(
        e.read_status(&None, &percent),
        Some(AriaProgress { downloaded: 100, total: 500, speed: 0 })
    );
    assert_eq!(e.read_status(&None, &groups(&[Some("(x%)"), Some("x")])), None);
    assert_eq!(e.read_status(&None, &groups(&[Some("(x%)")])), None);
    assert_eq!(e.read_status(&None, &None), None);
    assert_eq!(
        e.read_status(&full, &percent),
        Some(AriaProgress { downloaded: 1_024, total: 2_048, speed: 3_072 })
    );
}

#[test]
fn download_is_staged_beside_the_target() {
    let e = engine(None);
    assert_eq!(e.binary(), "/bin/managed/aria2c");
    assert_eq!(e.target_path(), "/tmp/dl/ffmpeg_tmp");
    let s = e.staging().unwrap();
    assert_eq!(s.dir, "/tmp/dl");
    assert_eq!(s.tmp_filename, "ffmpeg_tmp.tmp");
    assert_eq!(s.tmp_path, "/tmp/dl/ffmpeg_tmp.tmp");
    let s = AriaEngine::new("u", "/file.zip".to_string(), "a".to_string(), None).staging().unwrap();
    assert_eq!(s.dir, "/");
    assert_eq!(s.tmp_path, "/file.zip.tmp");
    let s = AriaEngine::new("u", "file.zip".to_string(), "a".to_string(), None).staging().unwrap();
    assert_eq!(s.dir, "");
    assert_eq!(s.tmp_path, "file.zip.tmp");
    let s = AriaEngine::new("u", "/a//b.zip".to_string(), "a".to_string(), None).staging().unwrap();
    assert_eq!(s.dir, "/a");
}

#[test]
fn target_without_a_name_is_refused() {
    let e = AriaEngine::new("u", String::new(), "a".to_string(), None);
    assert!(matches!(e.staging(), Err(TransportError::Validation(ref m)) if m == "Invalid path"));
    assert!(matches!(e.args(), Err(TransportError::Validation(ref m)) if m == "Invalid path"));
    let e = AriaEngine::new("u", "/tmp/dl/".to_string(), "a".to_string(), None);
    assert!(matches!(e.staging(), Err(TransportError::Validation(ref m)) if m == "Invalid filename"));
}

#[test]
fn downloader_arguments() {
    assert_eq!(
        engine(None).args().unwrap(),
        vec![
            "https://example.com/ffmpeg.zip",
            "-d",
            "/tmp/dl",
            "-o",
            "ffmpeg_tmp.tmp",
            "-s",
            "8",
            "-x",
            "8",
            "-j",
            "1",
            "--min-split-size=1M",
            "--allow-overwrite=true",
            "--summary-interval=1",
        ]
    );
}

#[test]
fn end_of_the_downloader() {
    assert_eq!(
        engine(Some(900)).after_exit(true, Some(0)).unwrap(),
        AriaProgress { downloaded: 900, total: 900, speed: 0 }
    );
    assert_eq!(
        engine(None).after_exit(true, Some(0)).unwrap(),
        AriaProgress { downloaded: 0, total: 0, speed: 0 }
    );
    assert!(matches!(
        engine(None).after_exit(false, Some(3)),
        Err(TransportError::Validation(ref m)) if m == "Aria2 exited with code Some(3)"
    ));
    assert!(matches!(
        engine(None).after_exit(false, Some(-1)),
        Err(TransportError::Validation(ref m)) if m == "Aria2 exited with code Some(-1)"
    ));
    assert!(matches!(
        engine(None).after_exit(false, None),
        Err(TransportError::Validation(ref m)) if m == "Aria2 exited with code None"
    ));
}
