use multiyt_dlp::deps::{
    compare_date, compare_semver, executable, get_latest_github_tag, get_provider,
    latest_release_url, plan_flatten, read_release_tag, version_at_least, wanted_file,
    Aria2Provider, ArchiveKind, BunProvider, DenoProvider, FfmpegProvider, Platform,
    ProviderKind, UpdateCheck, YtDlpProvider, UPDATE_CHECK_TIMEOUT_SECS,
};
use multiyt_dlp::logging::{archive_name, get_filter_string, surplus_archives, KEPT_ARCHIVES};

fn groups(items: &[&str]) -> Option<Vec<Option<String>>> {
    Some(items.iter().map(|s| Some(s.to_string())).collect())
}

#[test]
fn providers_by_name() {
    assert_eq!(get_provider("yt-dlp"), Some(ProviderKind::YtDlp));
    assert_eq!(get_provider("FFmpeg"), Some(ProviderKind::Ffmpeg));
    assert_eq!(get_provider("DENO"), Some(ProviderKind::Deno));
    assert_eq!(get_provider("Bun"), Some(ProviderKind::Bun));
    assert_eq!(get_provider("aria2"), Some(ProviderKind::Aria2));
    assert_eq!(get_provider("Aria2c"), Some(ProviderKind::Aria2));
    assert_eq!(get_provider("node"), None);
    assert_eq!(get_provider(""), None);
    assert_eq!(YtDlpProvider.kind(), ProviderKind::YtDlp);
    assert_eq!(FfmpegProvider.kind(), ProviderKind::Ffmpeg);
    assert_eq!(DenoProvider.kind(), ProviderKind::Deno);
    assert_eq!(BunProvider.kind(), ProviderKind::Bun);
    assert_eq!(Aria2Provider.kind(), ProviderKind::Aria2);
}

#[test]
fn provider_names_and_binaries() {
    assert_eq!(ProviderKind::YtDlp.get_name(), "yt-dlp");
    assert_eq!(ProviderKind::Ffmpeg.get_name(), "FFmpeg");
    assert_eq!(ProviderKind::Deno.get_name(), "Deno");
    assert_eq!(ProviderKind::Bun.get_name(), "Bun");
    assert_eq!(ProviderKind::Aria2.get_name(), "Aria2");
    assert_eq!(ProviderKind::YtDlp.get_binaries(Platform::Linux), vec!["yt-dlp"]);
    assert_eq!(ProviderKind::YtDlp.get_binaries(Platform::Windows), vec!["yt-dlp.exe"]);
    assert_eq!(ProviderKind::Ffmpeg.get_binaries(Platform::MacOs), vec!["ffmpeg"]);
    assert_eq!(ProviderKind::Deno.get_binaries(Platform::Windows), vec!["deno.exe"]);
    assert_eq!(ProviderKind::Bun.get_binaries(Platform::Linux), vec!["bun"]);
    assert_eq!(ProviderKind::Aria2.get_binaries(Platform::Windows), vec!["aria2c.exe"]);
    assert_eq!(executable("qjs", Platform::Windows), "qjs.exe");
    assert_eq!(executable("qjs", Platform::Linux), "qjs");
}

#[test]
fn provider_downloads() {
    assert_eq!(
        ProviderKind::YtDlp.download_url(Platform::Linux),
        "https://github.com/yt-dlp/yt-dlp/releases/latest/download/yt-dlp_linux"
    );
    assert_eq!(
        ProviderKind::Deno.download_url(Platform::MacOs),
        "https://github.com/denoland/deno/releases/latest/download/deno-aarch64-apple-darwin.zip"
    );
    assert_eq!(
        ProviderKind::Aria2.download_url(Platform::Windows),
        "https://github.com/aria2/aria2/releases/download/release-1.37.0/aria2-1.37.0-win-64bit-build1.zip"
    );
    assert_eq!(ProviderKind::YtDlp.archive_kind(Platform::Linux), ArchiveKind::Direct);
    assert_eq!(ProviderKind::Ffmpeg.archive_kind(Platform::Linux), ArchiveKind::Zip);
    assert_eq!(ProviderKind::Aria2.archive_kind(Platform::Windows), ArchiveKind::Zip);
    assert_eq!(ProviderKind::Aria2.archive_kind(Platform::Linux), ArchiveKind::TarBz2);
    assert_eq!(ProviderKind::Aria2.archive_kind(Platform::MacOs), ArchiveKind::TarBz2);
    assert_eq!(ProviderKind::YtDlp.archive_name(Platform::Windows), "yt-dlp.exe");
    assert_eq!(ProviderKind::Ffmpeg.archive_name(Platform::Linux), "ffmpeg_tmp");
    assert_eq!(ProviderKind::Deno.archive_name(Platform::Linux), "deno.zip");
    assert_eq!(ProviderKind::Bun.archive_name(Platform::Linux), "bun.zip");
    assert_eq!(ProviderKind::Aria2.archive_name(Platform::Windows), "aria2.zip");
    assert_eq!(ProviderKind::Aria2.archive_name(Platform::Linux), "aria2.tar.bz2");
    assert_eq!(ProviderKind::YtDlp.repository().as_deref(), Some("yt-dlp/yt-dlp"));
    assert_eq!(ProviderKind::Deno.repository().as_deref(), Some("denoland/deno"));
    assert_eq!(ProviderKind::Bun.repository().as_deref(), Some("oven-sh/bun"));
    assert_eq!(ProviderKind::Ffmpeg.repository(), None);
    assert_eq!(ProviderKind::Aria2.repository(), None);
}

#[test]
fn update_is_due_when_versions_differ() {
    let v = |s: &str| Some(s.to_string());
    assert!(!ProviderKind::YtDlp.check_update_available(&v("2024.08.06\n"), "2024.08.06"));
    assert!(ProviderKind::YtDlp.check_update_available(&v("2024.08.01"), "2024.08.06"));
    assert!(ProviderKind::YtDlp.check_update_available(&None, "2024.08.06"));
    assert!(!ProviderKind::Deno.check_update_available(&v("deno 2.1.4 (stable)"), "v2.1.4"));
    assert!(ProviderKind::Deno.check_update_available(&v("deno 2.1.3 (stable)"), "v2.1.4"));
    assert!(ProviderKind::Deno.check_update_available(&None, "v2.1.4"));
    assert!(ProviderKind::Bun.check_update_available(&v("1.1.20"), "bun-v1.1.20"));
    assert!(!ProviderKind::Bun.check_update_available(&v("1.1.20"), "v1.1.20"));
    assert!(!ProviderKind::Bun.check_update_available(&v("bun-1.1.20"), "bun-v1.1.20"));
    assert!(ProviderKind::Bun.check_update_available(&v("1.1.19"), "v1.1.20"));
    assert!(!ProviderKind::Ffmpeg.check_update_available(&None, "7.0"));
    assert!(!ProviderKind::Aria2.check_update_available(&Some("1.36".to_string()), "1.37"));
}

#[test]
fn versions_are_compared_with_the_real_pattern() {
    assert!(compare_semver("deno 2.1.4 (stable, release)", "2.0.0"));
    assert!(compare_semver("2.0.0", "2.0.0"));
    assert!(!compare_semver("v18.19.0", "20.0.0"));
    assert!(compare_semver("v22.3.1", "22.0.0"));
    assert!(compare_semver("1.0.31", "1.0.31"));
    assert!(!compare_semver("1.0.30", "1.0.31"));
    assert!(compare_semver("1.1.0", "1.0.31"));
    assert!(compare_semver("10.0.0", "9.9.9"));
    assert!(!compare_semver("no version here", "1.0.0"));
    assert!(!compare_semver("1.0.0", "none"));
    assert!(!compare_semver("1.0", "1.0.0"));
    assert!(!compare_semver("99999999999.0.0", "1.0.0"));
}

#[test]
fn dates_are_compared_with_the_real_pattern() {
    assert!(compare_date("QuickJS version 2024-01-13", "2023-12-09"));
    assert!(compare_date("2023-12-09", "2023-12-09"));
    assert!(!compare_date("2023-12-08", "2023-12-09"));
    assert!(!compare_date("2021-03-27", "2023-12-09"));
    assert!(!compare_date("version 0.5", "2023-12-09"));
}

#[test]
fn versions_are_compared_from_groups() {
    assert!(version_at_least(&groups(&["1.2.3", "1", "2", "3"]), &groups(&["1.2.3", "1", "2", "3"])));
    assert!(version_at_least(&groups(&["1.2.4", "1", "2", "4"]), &groups(&["1.2.3", "1", "2", "3"])));
    assert!(version_at_least(&groups(&["2.0.0", "2", "0", "0"]), &groups(&["1.9.9", "1", "9", "9"])));
    assert!(!version_at_least(&groups(&["1.2.2", "1", "2", "2"]), &groups(&["1.2.3", "1", "2", "3"])));
    assert!(!version_at_least(&groups(&["1.1.9", "1", "1", "9"]), &groups(&["1.2.3", "1", "2", "3"])));
    assert!(!version_at_least(&None, &groups(&["1.2.3", "1", "2", "3"])));
    assert!(!version_at_least(&groups(&["1.2.3", "1", "2", "3"]), &None));
    assert!(!version_at_least(&groups(&["1.2", "1", "2"]), &groups(&["1.2.3", "1", "2", "3"])));
    assert!(!version_at_least(&groups(&["x", "1", "b", "3"]), &groups(&["1.2.3", "1", "2", "3"])));
    assert!(!version_at_least(
        &groups(&["x", "4294967296", "0", "0"]),
        &groups(&["1.2.3", "1", "2", "3"])
    ));
    assert!(version_at_least(
        &groups(&["x", "4294967295", "0", "0"]),
        &groups(&["1.2.3", "1", "2", "3"])
    ));
    let missing = Some(vec![Some("x".to_string()), Some("1".to_string()), None, Some("3".to_string())]);
    assert!(!version_at_least(&missing, &groups(&["1.2.3", "1", "2", "3"])));
}

#[test]
fn release_service_answers() {
    assert_eq!(
        latest_release_url("yt-dlp/yt-dlp"),
        "https://api.github.com/repos/yt-dlp/yt-dlp/releases/latest"
    );
    assert_eq!(read_release_tag(200, Some("v1".to_string())), Ok("v1".to_string()));
    assert_eq!(read_release_tag(200, None), Err("Could not find tag_name".to_string()));
    assert_eq!(read_release_tag(403, Some("v1".to_string())), Err("GitHub API rate limit exceeded".to_string()));
    assert_eq!(read_release_tag(429, None), Err("GitHub API rate limit exceeded".to_string()));
    assert_eq!(read_release_tag(500, None), Err("GitHub API Error: 500".to_string()));
    assert_eq!(read_release_tag(404, None), Err("GitHub API Error: 404".to_string()));
    assert_eq!(
        get_latest_github_tag(200, r#"{"tag_name": "2024.08.06", "name": "yt-dlp 2024.08.06"}"#),
        Ok("2024.08.06".to_string())
    );
    assert_eq!(get_latest_github_tag(200, r#"{"tag_name": 5}"#), Err("Could not find tag_name".to_string()));
    assert_eq!(get_latest_github_tag(200, "oops"), Err("Could not find tag_name".to_string()));
    assert_eq!(
        get_latest_github_tag(403, r#"{"tag_name": "x"}"#),
        Err("GitHub API rate limit exceeded".to_string())
    );
}

#[test]
fn archive_files_are_matched_by_name() {
    let binaries = vec!["ffmpeg".to_string(), "ffprobe".to_string()];
    assert_eq!(wanted_file("ffmpeg-7.0/bin/ffmpeg", &binaries).as_deref(), Some("ffmpeg"));
    assert_eq!(wanted_file("ffprobe", &binaries).as_deref(), Some("ffprobe"));
    assert_eq!(wanted_file("ffmpeg-7.0/bin/ffplay", &binaries), None);
    assert_eq!(wanted_file("ffmpeg-7.0/ffmpeg/", &binaries), None);
    assert_eq!(wanted_file("ffmpeg/readme.txt", &binaries), None);
    assert_eq!(wanted_file("ffmpeg", &Vec::new()), None);
}

#[test]
fn unpacked_binaries_are_moved_to_the_top() {
    let binaries = vec!["aria2c".to_string()];
    let files = vec![
        "/bin/managed/aria2-1.37.0/README".to_string(),
        "/bin/managed/aria2-1.37.0/aria2c".to_string(),
        "/bin/managed/aria2c".to_string(),
    ];
    let moves = plan_flatten(&files, "/bin/managed", &binaries).unwrap();
    assert_eq!(
        moves,
        vec![("/bin/managed/aria2-1.37.0/aria2c".to_string(), "/bin/managed/aria2c".to_string())]
    );
    let moves = plan_flatten(&vec!["/bin/managed/aria2c".to_string()], "/bin/managed", &binaries).unwrap();
    assert_eq!(moves.len(), 0);
    assert_eq!(
        plan_flatten(&vec!["/bin/managed/x/README".to_string()], "/bin/managed", &binaries),
        Err("Binary not found in archive".to_string())
    );
    assert_eq!(
        plan_flatten(&Vec::new(), "/bin/managed", &binaries),
        Err("Binary not found in archive".to_string())
    );
}

#[test]
fn log_names_and_filters() {
    assert_eq!(get_filter_string("debug"), "debug,tao=error,wry=error,hyper=error");
    assert_eq!(get_filter_string(""), ",tao=error,wry=error,hyper=error");
    assert_eq!(archive_name("2024-08-06_12-30-00"), "app-2024-08-06_12-30-00.log");
    assert_eq!(KEPT_ARCHIVES, 10);
    assert_eq!(surplus_archives(0), 0);
    assert_eq!(surplus_archives(10), 0);
    assert_eq!(surplus_archives(11), 1);
    assert_eq!(surplus_archives(25), 15);
}

#[test]
fn update_check_begins_with_what_is_installed() {
    assert_eq!(UPDATE_CHECK_TIMEOUT_SECS, 2);
    assert!(matches!(ProviderKind::Ffmpeg.update_check(true), UpdateCheck::UpToDate));
    assert!(matches!(ProviderKind::Ffmpeg.update_check(false), UpdateCheck::UpToDate));
    assert!(matches!(ProviderKind::Aria2.update_check(false), UpdateCheck::UpToDate));
    assert!(matches!(ProviderKind::YtDlp.update_check(false), UpdateCheck::Due));
    assert!(matches!(ProviderKind::Deno.update_check(false), UpdateCheck::Due));
    assert!(matches!(
        ProviderKind::YtDlp.update_check(true),
        UpdateCheck::AskRelease(ref r) if r == "yt-dlp/yt-dlp"
    ));
    assert!(matches!(
        ProviderKind::Bun.update_check(true),
        UpdateCheck::AskRelease(ref r) if r == "oven-sh/bun"
    ));
}
