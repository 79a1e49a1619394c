use multiyt_dlp::install::{
    after_aria, choose_engine, extracting, initializing, native_notice, EngineChoice,
    ProgressReporter,
};

const MIB: u64 = 1024 * 1024;

#[test]
fn downloader_never_fetches_itself() {
    assert_eq!(choose_engine(true, "FFmpeg"), EngineChoice::Aria);
    assert_eq!(choose_engine(true, "yt-dlp"), EngineChoice::Aria);
    assert_eq!(choose_engine(true, "Aria2"), EngineChoice::Native);
    assert_eq!(choose_engine(true, "aria2"), EngineChoice::Native);
    assert_eq!(choose_engine(true, "ARIA2"), EngineChoice::Native);
    assert_eq!(choose_engine(false, "FFmpeg"), EngineChoice::Native);
    assert_eq!(choose_engine(false, "Aria2"), EngineChoice::Native);
}

#[test]
fn failed_downloader_hands_over() {
    assert_eq!(after_aria(true), None);
    assert_eq!(after_aria(false), Some(EngineChoice::Native));
}

#[test]
fn fixed_payloads() {
    let p = initializing("Deno");
    assert_eq!((p.name.as_str(), p.percentage, p.status.as_str()), ("Deno", 0, "Initializing..."));
    let p = native_notice("Deno");
    assert_eq!(
        (p.name.as_str(), p.percentage, p.status.as_str()),
        ("Deno", 0, "Downloading (Native)...")
    );
    let p = extracting("FFmpeg");
    assert_eq!(
        (p.name.as_str(), p.percentage, p.status.as_str()),
        ("FFmpeg", 100, "Extracting FFmpeg...")
    );
}

#[test]
fn report_goes_out_when_the_percentage_rises() {
    let mut r = ProgressReporter::new("Bun", None);
    let p = r.on_progress(10 * MIB, 100 * MIB, 3 * MIB / 2).expect("ten percent is news");
    assert_eq!(p.name, "Bun");
    assert_eq!(p.percentage, 10);
    assert_eq!(p.status, "1.5 MB/s");
    assert!(r.on_progress(10 * MIB + 5, 100 * MIB, MIB).is_none());
    assert!(r.on_progress(5 * MIB, 100 * MIB, MIB).is_none());
    let p = r.on_progress(11 * MIB, 100 * MIB, 0).unwrap();
    assert_eq!(p.percentage, 11);
    assert_eq!(p.status, "0.0 MB/s");
}

#[test]
fn full_percentage_is_always_reported() {
    let mut r = ProgressReporter::new("Bun", None);
    let p = r.on_progress(100, 100, 5 * MIB).unwrap();
    assert_eq!(p.percentage, 100);
    assert_eq!(p.status, "Verifying...");
    let p = r.on_progress(100, 100, 0).unwrap();
    assert_eq!(p.percentage, 100);
    assert_eq!(p.status, "Verifying...");
}

#[test]
fn unknown_total_reports_whole_mebibytes() {
    let mut r = ProgressReporter::new("Bun", None);
    assert_eq!(r.total_for(0), 0);
    let p = r.on_progress(3 * MIB, 0, 9).unwrap();
    assert_eq!(p.percentage, 0);
    assert_eq!(p.status, "3.0 MB");
    assert!(r.on_progress(3 * MIB + 1, 0, 9).is_none());
    let p = r.on_progress(0, 0, 9).unwrap();
    assert_eq!(p.status, "0.0 MB");
}

#[test]
fn fallback_stands_in_for_a_missing_total() {
    let mut r = ProgressReporter::new("Bun", Some(200));
    assert_eq!(r.total_for(0), 200);
    assert_eq!(r.total_for(50), 50);
    let p = r.on_progress(50, 0, MIB / 4).unwrap();
    assert_eq!(p.percentage, 25);
    assert_eq!(p.status, "0.2 MB/s");
    let p = r.on_progress(50, 100, 3 * MIB / 4).unwrap();
    assert_eq!(p.percentage, 50);
    assert_eq!(p.status, "0.8 MB/s");
}

#[test]
fn large_numbers_do_not_overflow() {
    let mut r = ProgressReporter::new("Bun", None);
    let p = r.on_progress(u64::MAX, 1, u64::MAX).unwrap();
    assert_eq!(p.percentage, u64::MAX);
    assert_eq!(p.status, "17592186044416.0 MB/s");
    let p = ProgressReporter::new("Bun", None).on_progress(u64::MAX, u64::MAX, 0).unwrap();
    assert_eq!(p.percentage, 100);
}
