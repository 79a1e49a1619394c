//! The command line handed to the extraction tool for one job.

use vstd::prelude::*;
use crate::config::{cookie_flags, CookieSource, CookieSourceView};
use crate::models::{DownloadFormatPreset, QueuedJob, QueuedJobView};
use crate::text::{
    chars_of, digits_in, keep_digits, push_all, push_str, push_string, push_text, push_texts,
    same_text, string_of, views,
};

verus! {

/// The filter that keeps formats no taller than the resolution hint: empty
/// for the hint `best` and for a hint without digits.
pub open spec fn height_filter_of(resolution: Seq<char>) -> Seq<char> {
    if resolution == "best"@ || keep_digits(resolution).len() == 0 {
        Seq::empty()
    } else {
        "[height<="@ + keep_digits(resolution) + "]"@
    }
}

/// Builds the filter that keeps formats no taller than the resolution hint.
pub fn height_filter(resolution: &str) -> (filter: String)
    ensures
        filter@ == height_filter_of(resolution@),
{
    let mut out: Vec<char> = Vec::new();
    if !same_text(resolution, "best") {
        let chars = chars_of(resolution);
        let digits = digits_in(chars.as_slice());
        if digits.len() > 0 {
            push_str(&mut out, "[height<=");
            push_all(&mut out, digits.as_slice());
            push_str(&mut out, "]");
            assert(out@ =~= "[height<="@ + keep_digits(resolution@) + "]"@);
        }
    }
    string_of(out.as_slice())
}

/// The container that a video preset merges into, if it names one.
pub open spec fn merge_container(preset: DownloadFormatPreset) -> Option<Seq<char>> {
    match preset {
        DownloadFormatPreset::BestMp4 => Some("mp4"@),
        DownloadFormatPreset::BestMkv => Some("mkv"@),
        DownloadFormatPreset::BestWebm => Some("webm"@),
        _ => None,
    }
}

/// The codec that an audio preset converts to, if it names one.
pub open spec fn audio_codec(preset: DownloadFormatPreset) -> Option<Seq<char>> {
    match preset {
        DownloadFormatPreset::AudioMp3 => Some("mp3"@),
        DownloadFormatPreset::AudioFlac => Some("flac"@),
        DownloadFormatPreset::AudioM4a => Some("m4a"@),
        _ => None,
    }
}

/// The arguments that select formats for a preset under a height filter.
pub open spec fn format_flags(preset: DownloadFormatPreset, filter: Seq<char>) -> Seq<Seq<char>> {
    match preset {
        DownloadFormatPreset::Best => if filter.len() == 0 {
            Seq::empty()
        } else {
            seq!["-f"@, "bestvideo"@ + filter + "+bestaudio/best"@ + filter]
        },
        DownloadFormatPreset::BestMp4
        | DownloadFormatPreset::BestMkv
        | DownloadFormatPreset::BestWebm => seq![
            "-f"@,
            "bestvideo"@ + filter + "+bestaudio"@,
            "--merge-output-format"@,
            merge_container(preset).unwrap(),
        ],
        DownloadFormatPreset::AudioBest => seq!["-x"@, "-f"@, "bestaudio/best"@],
        DownloadFormatPreset::AudioMp3
        | DownloadFormatPreset::AudioFlac
        | DownloadFormatPreset::AudioM4a => seq![
            "-x"@,
            "--audio-format"@,
            audio_codec(preset).unwrap(),
            "--audio-quality"@,
            "0"@,
        ],
    }
}

fn video_selector(filter: &str, with_fallback: bool) -> (s: String)
    ensures
        s@ == if with_fallback {
            "bestvideo"@ + filter@ + "+bestaudio/best"@ + filter@
        } else {
            "bestvideo"@ + filter@ + "+bestaudio"@
        },
{
    let mut out = chars_of("bestvideo");
    push_str(&mut out, filter);
    if with_fallback {
        push_str(&mut out, "+bestaudio/best");
        push_str(&mut out, filter);
    } else {
        push_str(&mut out, "+bestaudio");
    }
    string_of(out.as_slice())
}

/// The arguments that select formats for a preset under a height filter.
pub fn format_args(preset: DownloadFormatPreset, filter: &str) -> (args: Vec<String>)
    ensures
        views(args@) == format_flags(preset, filter@),
{
    let mut args: Vec<String> = Vec::new();
    match preset {
        DownloadFormatPreset::Best => {
            if filter.unicode_len() > 0 {
                push_text(&mut args, "-f");
                push_string(&mut args, video_selector(filter, true));
            }
        },
        DownloadFormatPreset::BestMp4 | DownloadFormatPreset::BestMkv
        | DownloadFormatPreset::BestWebm => {
            push_text(&mut args, "-f");
            push_string(&mut args, video_selector(filter, false));
            push_text(&mut args, "--merge-output-format");
            match preset {
                DownloadFormatPreset::BestMp4 => push_text(&mut args, "mp4"),
                DownloadFormatPreset::BestMkv => push_text(&mut args, "mkv"),
                _ => push_text(&mut args, "webm"),
            }
        },
        DownloadFormatPreset::AudioBest => {
            push_text(&mut args, "-x");
            push_text(&mut args, "-f");
            push_text(&mut args, "bestaudio/best");
        },
        DownloadFormatPreset::AudioMp3 | DownloadFormatPreset::AudioFlac
        | DownloadFormatPreset::AudioM4a => {
            push_text(&mut args, "-x");
            push_text(&mut args, "--audio-format");
            match preset {
                DownloadFormatPreset::AudioMp3 => push_text(&mut args, "mp3"),
                DownloadFormatPreset::AudioFlac => push_text(&mut args, "flac"),
                _ => push_text(&mut args, "m4a"),
            }
            push_text(&mut args, "--audio-quality");
            push_text(&mut args, "0");
        },
    }
    assert(views(args@) =~= format_flags(preset, filter@));
    args
}

/// The name under which the extraction tool knows a JavaScript engine.
pub open spec fn runtime_name(engine: Seq<char>) -> Seq<char> {
    if engine == "quickjs-ng"@ {
        "quickjs"@
    } else {
        engine
    }
}

/// The arguments that point the extraction tool at a JavaScript runtime,
/// given as the engine's name and the path of its executable.
pub open spec fn runtime_flags(runtime: Option<(Seq<char>, Seq<char>)>) -> Seq<Seq<char>> {
    match runtime {
        Some((engine, path)) => seq!["--js-runtimes"@, runtime_name(engine) + ":"@ + path],
        None => Seq::empty(),
    }
}

/// The view of an optional pair of strings.
pub open spec fn pair_view(p: Option<(String, String)>) -> Option<(Seq<char>, Seq<char>)> {
    match p {
        Some((a, b)) => Some((a@, b@)),
        None => None,
    }
}

/// Builds the arguments that point the extraction tool at a JavaScript runtime.
pub fn runtime_args(runtime: &Option<(String, String)>) -> (args: Vec<String>)
    ensures
        views(args@) == runtime_flags(pair_view(*runtime)),
{
    let mut args: Vec<String> = Vec::new();
    match runtime {
        Some((engine, path)) => {
            let mut spec_text: Vec<char> = Vec::new();
            if same_text(engine.as_str(), "quickjs-ng") {
                push_str(&mut spec_text, "quickjs");
            } else {
                push_str(&mut spec_text, engine.as_str());
            }
            push_str(&mut spec_text, ":");
            push_str(&mut spec_text, path.as_str());
            push_text(&mut args, "--js-runtimes");
            push_string(&mut args, string_of(spec_text.as_slice()));
            assert(views(args@) =~= runtime_flags(pair_view(*runtime)));
        },
        None => {},
    }
    args
}

/// The arguments that every download shares: what to fetch, where to write
/// it, and how to report on it.
pub open spec fn fixed_flags(url: Seq<char>, template: Seq<char>) -> Seq<Seq<char>> {
    seq![
        url,
        "-o"@,
        template,
        "--no-playlist"@,
        "--no-simulate"@,
        "--newline"@,
        "--windows-filenames"@,
        "--encoding"@,
        "utf-8"@,
        "--progress"@,
        "--progress-template"@,
        "download:%(progress)j"@,
        "--print"@,
        "after_move:filepath"@,
    ]
}

/// The arguments that depend on the job's switches.
pub open spec fn toggle_flags(job: QueuedJobView) -> Seq<Seq<char>> {
    (if job.restrict_filenames {
        seq!["--restrict-filenames"@, "--trim-filenames"@, "200"@]
    } else {
        Seq::empty()
    }) + (if job.embed_metadata {
        seq!["--embed-metadata"@]
    } else {
        Seq::empty()
    }) + (if job.embed_thumbnail {
        seq!["--embed-thumbnail"@]
    } else {
        Seq::empty()
    }) + (if job.live_from_start {
        seq!["--live-from-start"@]
    } else {
        Seq::empty()
    })
}

/// The whole argument list of the extraction tool for one job.
pub open spec fn download_flags(
    job: QueuedJobView,
    cookies: CookieSourceView,
    runtime: Option<(Seq<char>, Seq<char>)>,
) -> Seq<Seq<char>> {
    runtime_flags(runtime) + cookie_flags(cookies) + fixed_flags(job.url, job.filename_template)
        + toggle_flags(job) + format_flags(
        job.format_preset,
        height_filter_of(job.video_resolution),
    )
}

fn fixed_args(url: &str, template: &str) -> (args: Vec<String>)
    ensures
        views(args@) == fixed_flags(url@, template@),
{
    let mut args: Vec<String> = Vec::new();
    push_text(&mut args, url);
    push_text(&mut args, "-o");
    push_text(&mut args, template);
    push_text(&mut args, "--no-playlist");
    push_text(&mut args, "--no-simulate");
    push_text(&mut args, "--newline");
    push_text(&mut args, "--windows-filenames");
    push_text(&mut args, "--encoding");
    push_text(&mut args, "utf-8");
    push_text(&mut args, "--progress");
    push_text(&mut args, "--progress-template");
    push_text(&mut args, "download:%(progress)j");
    push_text(&mut args, "--print");
    push_text(&mut args, "after_move:filepath");
    assert(views(args@) =~= fixed_flags(url@, template@));
    args
}

fn toggle_args(job: &QueuedJob) -> (args: Vec<String>)
    ensures
        views(args@) == toggle_flags(job@),
{
    let mut args: Vec<String> = Vec::new();
    if job.restrict_filenames {
        push_text(&mut args, "--restrict-filenames");
        push_text(&mut args, "--trim-filenames");
        push_text(&mut args, "200");
    }
    if job.embed_metadata {
        push_text(&mut args, "--embed-metadata");
    }
    if job.embed_thumbnail {
        push_text(&mut args, "--embed-thumbnail");
    }
    if job.live_from_start {
        push_text(&mut args, "--live-from-start");
    }
    assert(views(args@) =~= toggle_flags(job@));
    args
}

/// Builds the argument list of the extraction tool for `job`.
pub fn download_args(
    job: &QueuedJob,
    cookies: &CookieSource,
    runtime: &Option<(String, String)>,
) -> (args: Vec<String>)
    ensures
        views(args@) == download_flags(job@, cookies@, pair_view(*runtime)),
{
    let mut args = runtime_args(runtime);
    push_texts(&mut args, cookies.flags());
    push_texts(&mut args, fixed_args(job.url.as_str(), job.filename_template.as_str()));
    push_texts(&mut args, toggle_args(job));
    let filter = height_filter(job.video_resolution.as_str());
    push_texts(&mut args, format_args(job.format_preset, filter.as_str()));
    args
}

/// The arguments with which the extraction tool describes a URL without
/// downloading it.
pub open spec fn probe_flags(url: Seq<char>, cookies: CookieSourceView) -> Seq<Seq<char>> {
    seq!["--flat-playlist"@, "--dump-single-json"@, "--no-warnings"@, url] + cookie_flags(cookies)
}

/// Builds the argument list of a probe of `url`.
pub fn probe_args(url: &str, cookies: &CookieSource) -> (args: Vec<String>)
    ensures
        views(args@) == probe_flags(url@, cookies@),
{
    let mut args: Vec<String> = Vec::new();
    push_text(&mut args, "--flat-playlist");
    push_text(&mut args, "--dump-single-json");
    push_text(&mut args, "--no-warnings");
    push_text(&mut args, url);
    assert(views(args@) =~= seq![
        "--flat-playlist"@,
        "--dump-single-json"@,
        "--no-warnings"@,
        url@,
    ]);
    push_texts(&mut args, cookies.flags());
    args
}

/// The value of `PATH` for a child process: the directory of managed
/// binaries in front of what the parent has, if it has any.
pub open spec fn child_path_of(
    bin_dir: Seq<char>,
    inherited: Option<Seq<char>>,
    windows: bool,
) -> Seq<char> {
    match inherited {
        Some(rest) => bin_dir + (if windows {
            ";"@
        } else {
            ":"@
        }) + rest,
        None => bin_dir,
    }
}

/// Builds the value of `PATH` for a child process.
pub fn child_path(bin_dir: &str, inherited: &Option<String>, windows: bool) -> (path: String)
    ensures
        path@ == child_path_of(bin_dir@, crate::models::opt_view(*inherited), windows),
{
    let mut out = chars_of(bin_dir);
    match inherited {
        Some(rest) => {
            if windows {
                push_str(&mut out, ";");
            } else {
                push_str(&mut out, ":");
            }
            push_str(&mut out, rest.as_str());
        },
        None => {},
    }
    string_of(out.as_slice())
}

/// The program that is run as the extraction tool: the managed binary
/// where there is one, else whatever the search path of the system holds
/// under the tool's name.
pub open spec fn extraction_program_of(managed: Option<Seq<char>>) -> Seq<char> {
    match managed {
        Some(path) => path,
        None => "yt-dlp"@,
    }
}

/// Picks the program that is run as the extraction tool. `managed` is the
/// path of the managed binary, if it is installed.
pub fn extraction_program(managed: &Option<String>) -> (program: String)
    ensures
        program@ == extraction_program_of(crate::models::opt_view(*managed)),
{
    match managed {
        Some(path) => path.clone(),
        None => "yt-dlp".to_owned(),
    }
}

/// The views of a sequence of pairs of strings.
pub open spec fn variable_views(v: Seq<(String, String)>) -> Seq<(Seq<char>, Seq<char>)> {
    v.map_values(|p: (String, String)| (p.0@, p.1@))
}

/// The environment variables of a worker's child process: the search path
/// with the managed binaries in front, and UTF-8 for what the tool reads
/// and writes.
pub open spec fn child_environment_of(
    bin_dir: Seq<char>,
    inherited: Option<Seq<char>>,
    windows: bool,
) -> Seq<(Seq<char>, Seq<char>)> {
    seq![
        ("PATH"@, child_path_of(bin_dir, inherited, windows)),
        ("PYTHONUTF8"@, "1"@),
        ("PYTHONIOENCODING"@, "utf-8"@),
    ]
}

/// Builds the environment variables of a worker's child process.
pub fn child_environment(bin_dir: &str, inherited: &Option<String>, windows: bool) -> (vars: Vec<
    (String, String),
>)
    ensures
        variable_views(vars@) == child_environment_of(
            bin_dir@,
            crate::models::opt_view(*inherited),
            windows,
        ),
{
    let mut vars: Vec<(String, String)> = Vec::new();
    vars.push(("PATH".to_owned(), child_path(bin_dir, inherited, windows)));
    vars.push(("PYTHONUTF8".to_owned(), "1".to_owned()));
    vars.push(("PYTHONIOENCODING".to_owned(), "utf-8".to_owned()));
    assert(variable_views(vars@) =~= child_environment_of(
        bin_dir@,
        crate::models::opt_view(*inherited),
        windows,
    ));
    vars
}

} // verus!
