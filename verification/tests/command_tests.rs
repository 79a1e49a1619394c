use multiyt_dlp::command::{
    child_environment, child_path, download_args, extraction_program, format_args, height_filter,
    probe_args, runtime_args,
};
use multiyt_dlp::config::{CookieSource, GeneralConfig, Limits, PreferenceConfig};
use multiyt_dlp::models::{DownloadFormatPreset, QueuedJob};

fn queued(preset: DownloadFormatPreset, resolution: &str) -> QueuedJob {
    QueuedJob {
        id: 1,
        url: "https://example.com/v?id=1".to_string(),
        download_path: None,
        format_preset: preset,
        video_resolution: resolution.to_string(),
        embed_metadata: false,
        embed_thumbnail: false,
        filename_template: "%(title)s.%(ext)s".to_string(),
        restrict_filenames: false,
        live_from_start: false,
        status: None,
        error: None,
        stderr: None,
    }
}

const FIXED: [&str; 14] = [
    "https://example.com/v?id=1",
    "-o",
    "%(title)s.%(ext)s",
    "--no-playlist",
    "--no-simulate",
    "--newline",
    "--windows-filenames",
    "--encoding",
    "utf-8",
    "--progress",
    "--progress-template",
    "download:%(progress)j",
    "--print",
    "after_move:filepath",
];

#[test]
fn height_filters() {
    assert_eq!(height_filter("best"), "");
    assert_eq!(height_filter("1080p"), "[height<=1080]");
    assert_eq!(height_filter("720"), "[height<=720]");
    assert_eq!(height_filter("4k2160"), "[height<=42160]");
    assert_eq!(height_filter("tall"), "");
    assert_eq!(height_filter(""), "");
}

#[test]
fn format_selection() {
    assert_eq!(format_args(DownloadFormatPreset::Best, "").len(), 0);
    assert_eq!(
        format_args(DownloadFormatPreset::Best, "[height<=720]"),
        vec!["-f", "bestvideo[height<=720]+bestaudio/best[height<=720]"]
    );
    assert_eq!(
        format_args(DownloadFormatPreset::BestMp4, "[height<=1080]"),
        vec!["-f", "bestvideo[height<=1080]+bestaudio", "--merge-output-format", "mp4"]
    );
    assert_eq!(
        format_args(DownloadFormatPreset::BestMkv, ""),
        vec!["-f", "bestvideo+bestaudio", "--merge-output-format", "mkv"]
    );
    assert_eq!(
        format_args(DownloadFormatPreset::BestWebm, ""),
        vec!["-f", "bestvideo+bestaudio", "--merge-output-format", "webm"]
    );
    assert_eq!(
        format_args(DownloadFormatPreset::AudioBest, "[height<=720]"),
        vec!["-x", "-f", "bestaudio/best"]
    );
    assert_eq!(
        format_args(DownloadFormatPreset::AudioMp3, ""),
        vec!["-x", "--audio-format", "mp3", "--audio-quality", "0"]
    );
    assert_eq!(
        format_args(DownloadFormatPreset::AudioFlac, ""),
        vec!["-x", "--audio-format", "flac", "--audio-quality", "0"]
    );
    assert_eq!(
        format_args(DownloadFormatPreset::AudioM4a, ""),
        vec!["-x", "--audio-format", "m4a", "--audio-quality", "0"]
    );
}

#[test]
fn plain_job_has_the_fixed_arguments_only() {
    let args = download_args(&queued(DownloadFormatPreset::Best, "best"), &CookieSource::Unset, &None);
    assert_eq!(args, FIXED.to_vec());
}

#[test]
fn full_job_has_every_group_in_order() {
    let mut job = queued(DownloadFormatPreset::BestMp4, "1080p");
    job.restrict_filenames = true;
    job.embed_metadata = true;
    job.embed_thumbnail = true;
    job.live_from_start = true;
    let args = download_args(
        &job,
        &CookieSource::Browser("firefox".to_string()),
        &Some(("quickjs-ng".to_string(), "/bin/qjs-ng".to_string())),
    );
    let mut expected = vec!["--js-runtimes", "quickjs:/bin/qjs-ng", "--cookies-from-browser", "firefox"];
    expected.extend(FIXED);
    expected.extend([
        "--restrict-filenames",
        "--trim-filenames",
        "200",
        "--embed-metadata",
        "--embed-thumbnail",
        "--live-from-start",
        "-f",
        "bestvideo[height<=1080]+bestaudio",
        "--merge-output-format",
        "mp4",
    ]);
    assert_eq!(args, expected);
}

#[test]
fn restricted_names_come_only_on_request() {
    let args = download_args(&queued(DownloadFormatPreset::AudioMp3, "best"), &CookieSource::Unset, &None);
    assert!(!args.contains(&"--restrict-filenames".to_string()));
    assert!(!args.contains(&"--trim-filenames".to_string()));
}

#[test]
fn runtime_arguments() {
    assert_eq!(runtime_args(&None).len(), 0);
    assert_eq!(
        runtime_args(&Some(("deno".to_string(), "/bin/deno".to_string()))),
        vec!["--js-runtimes", "deno:/bin/deno"]
    );
    assert_eq!(
        runtime_args(&Some(("quickjs".to_string(), "/bin/qjs".to_string()))),
        vec!["--js-runtimes", "quickjs:/bin/qjs"]
    );
    assert_eq!(
        runtime_args(&Some(("quickjs-ng".to_string(), "C:\\qjs-ng.exe".to_string()))),
        vec!["--js-runtimes", "quickjs:C:\\qjs-ng.exe"]
    );
}

#[test]
fn probe_arguments() {
    assert_eq!(
        probe_args("https://example.com/list", &CookieSource::Unset),
        vec!["--flat-playlist", "--dump-single-json", "--no-warnings", "https://example.com/list"]
    );
    assert_eq!(
        probe_args("https://example.com/list", &CookieSource::File("/c.txt".to_string())),
        vec![
            "--flat-playlist",
            "--dump-single-json",
            "--no-warnings",
            "https://example.com/list",
            "--cookies",
            "/c.txt"
        ]
    );
}

#[test]
fn child_paths() {
    assert_eq!(child_path("/bin/managed", &Some("/usr/bin:/bin".to_string()), false), "/bin/managed:/usr/bin:/bin");
    assert_eq!(child_path("C:\\bin", &Some("C:\\Windows".to_string()), true), "C:\\bin;C:\\Windows");
    assert_eq!(child_path("/bin/managed", &None, false), "/bin/managed");
}

fn config(path: Option<&str>, browser: Option<&str>) -> GeneralConfig {
    let mut c = GeneralConfig::default();
    c.cookies_path = path.map(|s| s.to_string());
    c.cookies_from_browser = browser.map(|s| s.to_string());
    c
}

#[test]
fn cookie_source_prefers_the_file() {
    assert!(matches!(config(None, None).cookie_source(), CookieSource::Unset));
    assert!(matches!(
        config(Some("/c.txt"), Some("firefox")).cookie_source(),
        CookieSource::File(ref p) if p == "/c.txt"
    ));
    assert!(matches!(
        config(None, Some("firefox")).cookie_source(),
        CookieSource::Browser(ref b) if b == "firefox"
    ));
}

#[test]
fn blank_and_none_count_as_unset() {
    assert!(matches!(config(Some("  "), None).cookie_source(), CookieSource::Unset));
    assert!(matches!(config(None, Some("none")).cookie_source(), CookieSource::Unset));
    assert!(matches!(config(None, Some("")).cookie_source(), CookieSource::Unset));
    assert!(matches!(
        config(Some(""), Some("chrome")).cookie_source(),
        CookieSource::Browser(ref b) if b == "chrome"
    ));
    assert!(matches!(
        config(Some("none"), Some("chrome")).cookie_source(),
        CookieSource::Browser(ref b) if b == "chrome"
    ));
}

#[test]
fn cookie_flags() {
    assert_eq!(CookieSource::Unset.flags().len(), 0);
    assert_eq!(CookieSource::File("/c.txt".to_string()).flags(), vec!["--cookies", "/c.txt"]);
    assert_eq!(
        CookieSource::Browser("edge".to_string()).flags(),
        vec!["--cookies-from-browser", "edge"]
    );
}

#[test]
fn general_defaults() {
    let c = GeneralConfig::default();
    assert_eq!(c.download_path, None);
    assert_eq!(c.filename_template, "%(title)s.%(ext)s");
    assert_eq!(c.template_blocks_json, None);
    assert_eq!(c.max_concurrent_downloads, 4);
    assert_eq!(c.max_total_instances, 10);
    assert_eq!(c.log_level, "info");
    assert!(c.check_for_updates);
    assert_eq!(c.cookies_path, None);
    assert_eq!(c.cookies_from_browser, None);
    assert_eq!(c.limits(), Limits { max_concurrent_downloads: 4, max_total_instances: 10 });
}

#[test]
fn preference_defaults() {
    let p = PreferenceConfig::default();
    assert_eq!(p.mode, "video");
    assert_eq!(p.format_preset, "best");
    assert_eq!(p.video_preset, "best");
    assert_eq!(p.audio_preset, "audio_best");
    assert_eq!(p.video_resolution, "best");
    assert!(!p.embed_metadata);
    assert!(!p.embed_thumbnail);
    assert!(!p.live_from_start);
}

#[test]
fn managed_tool_is_preferred() {
    assert_eq!(extraction_program(&Some("/bin/managed/yt-dlp".to_string())), "/bin/managed/yt-dlp");
    assert_eq!(extraction_program(&None), "yt-dlp");
}

#[test]
fn child_environment_sets_path_and_encoding() {
    let vars = child_environment("/bin/managed", &Some("/usr/bin".to_string()), false);
    assert_eq!(
        vars,
        vec![
            ("PATH".to_string(), "/bin/managed:/usr/bin".to_string()),
            ("PYTHONUTF8".to_string(), "1".to_string()),
            ("PYTHONIOENCODING".to_string(), "utf-8".to_string()),
        ]
    );
    let vars = child_environment("C:\\bin", &None, true);
    assert_eq!(vars[0], ("PATH".to_string(), "C:\\bin".to_string()));
}
