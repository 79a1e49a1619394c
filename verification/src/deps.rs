//! The helper binaries that the controller manages: what they are called,
//! where they come from, how their archives are unpacked, and when a newer
//! release is due.

use vstd::prelude::*;
use crate::json::{json_string_at, string_field};
use crate::models::opt_view;
use crate::pattern::{captures, captures_view, group_views, regex_captures};
use crate::stream::{file_name, file_name_of};
use crate::text::{
    all_digits, chars_of, concat, contains, contains_text, digits_value, lowered, parse_digits,
    push_decimal, push_str, same_chars, same_text, string_of, to_lower, trim, trimmed, views,
    decimal,
};
use crate::worker::{join_path, joined_path};

verus! {

/// The systems that the helper binaries are built for.
#[derive(Clone, Copy, Debug, PartialEq, Eq, Structural)]
pub enum Platform {
    Windows,
    MacOs,
    Linux,
}

/// The managed helper binaries.
#[derive(Clone, Copy, Debug, PartialEq, Eq, Structural)]
pub enum ProviderKind {
    YtDlp,
    Ffmpeg,
    Deno,
    Bun,
    Aria2,
}

/// How a download is turned into a binary.
#[derive(Clone, Copy, Debug, PartialEq, Eq, Structural)]
pub enum ArchiveKind {
    /// The download is the binary.
    Direct,
    Zip,
    TarBz2,
}

/// The name under which a provider shows.
pub open spec fn provider_name(kind: ProviderKind) -> Seq<char> {
    match kind {
        ProviderKind::YtDlp => "yt-dlp"@,
        ProviderKind::Ffmpeg => "FFmpeg"@,
        ProviderKind::Deno => "Deno"@,
        ProviderKind::Bun => "Bun"@,
        ProviderKind::Aria2 => "Aria2"@,
    }
}

/// The name of a provider's executable without its ending.
pub open spec fn binary_base(kind: ProviderKind) -> Seq<char> {
    match kind {
        ProviderKind::YtDlp => "yt-dlp"@,
        ProviderKind::Ffmpeg => "ffmpeg"@,
        ProviderKind::Deno => "deno"@,
        ProviderKind::Bun => "bun"@,
        ProviderKind::Aria2 => "aria2c"@,
    }
}

/// The name of an executable on a platform.
pub open spec fn executable_name(base: Seq<char>, platform: Platform) -> Seq<char> {
    if platform == Platform::Windows {
        base + ".exe"@
    } else {
        base
    }
}

/// The provider that a name stands for; letter case does not count.
pub open spec fn provider_for(name: Seq<char>) -> Option<ProviderKind> {
    let n = lowered(name);
    if n == "yt-dlp"@ {
        Some(ProviderKind::YtDlp)
    } else if n == "ffmpeg"@ {
        Some(ProviderKind::Ffmpeg)
    } else if n == "deno"@ {
        Some(ProviderKind::Deno)
    } else if n == "bun"@ {
        Some(ProviderKind::Bun)
    } else if n == "aria2"@ || n == "aria2c"@ {
        Some(ProviderKind::Aria2)
    } else {
        None
    }
}

/// Where a provider's release is downloaded from.
pub open spec fn release_url(kind: ProviderKind, platform: Platform) -> Seq<char> {
    match (kind, platform) {
        (ProviderKind::YtDlp, Platform::Windows) =>
            "https://github.com/yt-dlp/yt-dlp/releases/latest/download/yt-dlp.exe"@,
        (ProviderKind::YtDlp, Platform::MacOs) =>
            "https://github.com/yt-dlp/yt-dlp/releases/latest/download/yt-dlp_macos"@,
        (ProviderKind::YtDlp, Platform::Linux) =>
            "https://github.com/yt-dlp/yt-dlp/releases/latest/download/yt-dlp_linux"@,
        (ProviderKind::Ffmpeg, Platform::Windows) =>
            "https://www.gyan.dev/ffmpeg/builds/ffmpeg-release-essentials.zip"@,
        (ProviderKind::Ffmpeg, Platform::MacOs) =>
            "https://evermeet.cx/ffmpeg/ffmpeg-113374-g80f9281204.zip"@,
        (ProviderKind::Ffmpeg, Platform::Linux) =>
            "https://johnvansickle.com/ffmpeg/releases/ffmpeg-release-amd64-static.tar.xz"@,
        (ProviderKind::Deno, Platform::Windows) =>
            "https://github.com/denoland/deno/releases/latest/download/deno-x86_64-pc-windows-msvc.zip"@,
        (ProviderKind::Deno, Platform::MacOs) =>
            "https://github.com/denoland/deno/releases/latest/download/deno-aarch64-apple-darwin.zip"@,
        (ProviderKind::Deno, Platform::Linux) =>
            "https://github.com/denoland/deno/releases/latest/download/deno-x86_64-unknown-linux-gnu.zip"@,
        (ProviderKind::Bun, Platform::Windows) =>
            "https://github.com/oven-sh/bun/releases/latest/download/bun-windows-x64.zip"@,
        (ProviderKind::Bun, Platform::MacOs) =>
            "https://github.com/oven-sh/bun/releases/latest/download/bun-darwin-aarch64.zip"@,
        (ProviderKind::Bun, Platform::Linux) =>
            "https://github.com/oven-sh/bun/releases/latest/download/bun-linux-x64.zip"@,
        (ProviderKind::Aria2, Platform::Windows) =>
            "https://github.com/aria2/aria2/releases/download/release-1.37.0/aria2-1.37.0-win-64bit-build1.zip"@,
        (ProviderKind::Aria2, Platform::MacOs) =>
            "https://github.com/aria2/aria2/releases/download/release-1.37.0/aria2-1.37.0-osx-darwin.tar.bz2"@,
        (ProviderKind::Aria2, Platform::Linux) =>
            "https://github.com/aria2/aria2/releases/download/release-1.37.0/aria2-1.37.0-linux-gnu-64bit-build1.tar.bz2"@,
    }
}

/// How a provider's download is turned into its binary.
pub open spec fn archive_of(kind: ProviderKind, platform: Platform) -> ArchiveKind {
    match kind {
        ProviderKind::YtDlp => ArchiveKind::Direct,
        ProviderKind::Aria2 => if platform == Platform::Windows {
            ArchiveKind::Zip
        } else {
            ArchiveKind::TarBz2
        },
        _ => ArchiveKind::Zip,
    }
}

/// The name under which a provider's download is kept until it is
/// unpacked; the binary's own name where the download is the binary.
pub open spec fn download_name(kind: ProviderKind, platform: Platform) -> Seq<char> {
    match kind {
        ProviderKind::YtDlp => executable_name(binary_base(kind), platform),
        ProviderKind::Ffmpeg => "ffmpeg_tmp"@,
        ProviderKind::Deno => "deno.zip"@,
        ProviderKind::Bun => "bun.zip"@,
        ProviderKind::Aria2 => if platform == Platform::Windows {
            "aria2.zip"@
        } else {
            "aria2.tar.bz2"@
        },
    }
}

/// The repository whose latest release tells whether a provider is up to
/// date; none for a provider that is kept at a fixed version.
pub open spec fn release_repository(kind: ProviderKind) -> Option<Seq<char>> {
    match kind {
        ProviderKind::YtDlp => Some("yt-dlp/yt-dlp"@),
        ProviderKind::Deno => Some("denoland/deno"@),
        ProviderKind::Bun => Some("oven-sh/bun"@),
        _ => None,
    }
}

/// Seconds that the release service is given to answer an update check.
pub const UPDATE_CHECK_TIMEOUT_SECS: u64 = 2;

/// How an update check begins.
#[derive(Debug)]
pub enum UpdateCheck {
    /// The provider is kept at a fixed version: nothing is due.
    UpToDate,
    /// The binary is missing: it is due without asking.
    Due,
    /// Ask this repository for its latest release and compare.
    AskRelease(String),
}

pub ghost enum UpdateCheckView {
    UpToDate,
    Due,
    AskRelease(Seq<char>),
}

impl View for UpdateCheck {
    type V = UpdateCheckView;

    open spec fn view(&self) -> UpdateCheckView {
        match *self {
            UpdateCheck::UpToDate => UpdateCheckView::UpToDate,
            UpdateCheck::Due => UpdateCheckView::Due,
            UpdateCheck::AskRelease(repo) => UpdateCheckView::AskRelease(repo@),
        }
    }
}

/// How the update check of a provider begins, given whether its binary is
/// installed.
pub open spec fn update_check_of(kind: ProviderKind, binary_present: bool) -> UpdateCheckView {
    match release_repository(kind) {
        None => UpdateCheckView::UpToDate,
        Some(repo) => if binary_present {
            UpdateCheckView::AskRelease(repo)
        } else {
            UpdateCheckView::Due
        },
    }
}

/// A text without the letter `v`.
pub open spec fn without_v(text: Seq<char>) -> Seq<char>
    decreases text.len(),
{
    if text.len() == 0 {
        Seq::empty()
    } else if text.last() == 'v' {
        without_v(text.drop_last())
    } else {
        without_v(text.drop_last()).push(text.last())
    }
}

/// Whether a newer release is due, given what the installed binary says
/// of its version and the tag of the latest release. A binary that says
/// nothing is due. One tool is due whenever its version is not the tag;
/// the others are due when their version does not hold the tag's number.
pub open spec fn is_update_due(
    kind: ProviderKind,
    local_version: Option<Seq<char>>,
    remote_tag: Seq<char>,
) -> bool {
    match kind {
        ProviderKind::YtDlp => match local_version {
            Some(v) => trimmed(v) != trimmed(remote_tag),
            None => true,
        },
        ProviderKind::Deno | ProviderKind::Bun => match local_version {
            Some(v) => !contains_text(v, without_v(remote_tag)),
            None => true,
        },
        _ => false,
    }
}

impl ProviderKind {
    /// The name under which this provider shows.
    pub fn get_name(&self) -> (name: String)
        ensures
            name@ == provider_name(*self),
    {
        match self {
            ProviderKind::YtDlp => "yt-dlp".to_owned(),
            ProviderKind::Ffmpeg => "FFmpeg".to_owned(),
            ProviderKind::Deno => "Deno".to_owned(),
            ProviderKind::Bun => "Bun".to_owned(),
            ProviderKind::Aria2 => "Aria2".to_owned(),
        }
    }

    /// The executables that make up this provider on a platform.
    pub fn get_binaries(&self, platform: Platform) -> (names: Vec<String>)
        ensures
            views(names@) == seq![executable_name(binary_base(*self), platform)],
    {
        let base = match self {
            ProviderKind::YtDlp => "yt-dlp",
            ProviderKind::Ffmpeg => "ffmpeg",
            ProviderKind::Deno => "deno",
            ProviderKind::Bun => "bun",
            ProviderKind::Aria2 => "aria2c",
        };
        let mut names: Vec<String> = Vec::new();
        names.push(executable(base, platform));
        assert(views(names@) =~= seq![executable_name(binary_base(*self), platform)]);
        names
    }

    /// Where the release for a platform is downloaded from.
    pub fn download_url(&self, platform: Platform) -> (url: String)
        ensures
            url@ == release_url(*self, platform),
    {
        match (self, platform) {
            (ProviderKind::YtDlp, Platform::Windows) =>
                "https://github.com/yt-dlp/yt-dlp/releases/latest/download/yt-dlp.exe".to_owned(),
            (ProviderKind::YtDlp, Platform::MacOs) =>
                "https://github.com/yt-dlp/yt-dlp/releases/latest/download/yt-dlp_macos".to_owned(),
            (ProviderKind::YtDlp, Platform::Linux) =>
                "https://github.com/yt-dlp/yt-dlp/releases/latest/download/yt-dlp_linux".to_owned(),
            (ProviderKind::Ffmpeg, Platform::Windows) =>
                "https://www.gyan.dev/ffmpeg/builds/ffmpeg-release-essentials.zip".to_owned(),
            (ProviderKind::Ffmpeg, Platform::MacOs) =>
                "https://evermeet.cx/ffmpeg/ffmpeg-113374-g80f9281204.zip".to_owned(),
            (ProviderKind::Ffmpeg, Platform::Linux) =>
                "https://johnvansickle.com/ffmpeg/releases/ffmpeg-release-amd64-static.tar.xz".to_owned(),
            (ProviderKind::Deno, Platform::Windows) =>
                "https://github.com/denoland/deno/releases/latest/download/deno-x86_64-pc-windows-msvc.zip".to_owned(),
            (ProviderKind::Deno, Platform::MacOs) =>
                "https://github.com/denoland/deno/releases/latest/download/deno-aarch64-apple-darwin.zip".to_owned(),
            (ProviderKind::Deno, Platform::Linux) =>
                "https://github.com/denoland/deno/releases/latest/download/deno-x86_64-unknown-linux-gnu.zip".to_owned(),
            (ProviderKind::Bun, Platform::Windows) =>
                "https://github.com/oven-sh/bun/releases/latest/download/bun-windows-x64.zip".to_owned(),
            (ProviderKind::Bun, Platform::MacOs) =>
                "https://github.com/oven-sh/bun/releases/latest/download/bun-darwin-aarch64.zip".to_owned(),
            (ProviderKind::Bun, Platform::Linux) =>
                "https://github.com/oven-sh/bun/releases/latest/download/bun-linux-x64.zip".to_owned(),
            (ProviderKind::Aria2, Platform::Windows) =>
                "https://github.com/aria2/aria2/releases/download/release-1.37.0/aria2-1.37.0-win-64bit-build1.zip".to_owned(),
            (ProviderKind::Aria2, Platform::MacOs) =>
                "https://github.com/aria2/aria2/releases/download/release-1.37.0/aria2-1.37.0-osx-darwin.tar.bz2".to_owned(),
            (ProviderKind::Aria2, Platform::Linux) =>
                "https://github.com/aria2/aria2/releases/download/release-1.37.0/aria2-1.37.0-linux-gnu-64bit-build1.tar.bz2".to_owned(),
        }
    }

    /// How the download is turned into the binary.
    pub fn archive_kind(&self, platform: Platform) -> (kind: ArchiveKind)
        ensures
            kind == archive_of(*self, platform),
    {
        match self {
            ProviderKind::YtDlp => ArchiveKind::Direct,
            ProviderKind::Aria2 => match platform {
                Platform::Windows => ArchiveKind::Zip,
                _ => ArchiveKind::TarBz2,
            },
            _ => ArchiveKind::Zip,
        }
    }

    /// The name under which the download is kept until it is unpacked.
    pub fn archive_name(&self, platform: Platform) -> (name: String)
        ensures
            name@ == download_name(*self, platform),
    {
        match self {
            ProviderKind::YtDlp => executable("yt-dlp", platform),
            ProviderKind::Ffmpeg => "ffmpeg_tmp".to_owned(),
            ProviderKind::Deno => "deno.zip".to_owned(),
            ProviderKind::Bun => "bun.zip".to_owned(),
            ProviderKind::Aria2 => match platform {
                Platform::Windows => "aria2.zip".to_owned(),
                _ => "aria2.tar.bz2".to_owned(),
            },
        }
    }

    /// The repository whose latest release tells whether this provider is
    /// up to date.
    pub fn repository(&self) -> (repo: Option<String>)
        ensures
            opt_view(repo) == release_repository(*self),
    {
        match self {
            ProviderKind::YtDlp => Some("yt-dlp/yt-dlp".to_owned()),
            ProviderKind::Deno => Some("denoland/deno".to_owned()),
            ProviderKind::Bun => Some("oven-sh/bun".to_owned()),
            _ => None,
        }
    }

    /// How the update check begins, given whether the binary is installed.
    pub fn update_check(&self, binary_present: bool) -> (check: UpdateCheck)
        ensures
            check@ == update_check_of(*self, binary_present),
    {
        match self.repository() {
            None => UpdateCheck::UpToDate,
            Some(repo) => {
                if binary_present {
                    UpdateCheck::AskRelease(repo)
                } else {
                    UpdateCheck::Due
                }
            },
        }
    }

    /// Whether a newer release is due.
    pub fn check_update_available(&self, local_version: &Option<String>, remote_tag: &str) -> (due:
        bool)
        ensures
            due == is_update_due(*self, opt_view(*local_version), remote_tag@),
    {
        match self {
            ProviderKind::YtDlp => match local_version {
                Some(v) => {
                    let a = chars_of(v.as_str());
                    let b = chars_of(remote_tag);
                    let ta = trim(a.as_slice());
                    let tb = trim(b.as_slice());
                    !same_chars(ta.as_slice(), tb.as_slice())
                },
                None => true,
            },
            ProviderKind::Deno | ProviderKind::Bun => match local_version {
                Some(v) => {
                    let a = chars_of(v.as_str());
                    let tag = chars_of(remote_tag);
                    let number = strip_v(tag.as_slice());
                    !contains(a.as_slice(), number.as_slice())
                },
                None => true,
            },
            _ => false,
        }
    }
}

fn strip_v(text: &[char]) -> (out: Vec<char>)
    ensures
        out@ == without_v(text@),
{
    let mut out: Vec<char> = Vec::new();
    let mut i: usize = 0;
    while i < text.len()
        invariant
            i <= text.len(),
            out@ == without_v(text@.take(i as int)),
        decreases text.len() - i,
    {
        proof {
            assert(text@.take(i + 1).drop_last() =~= text@.take(i as int));
        }
        if text[i] != 'v' {
            out.push(text[i]);
        }
        i = i + 1;
    }
    assert(text@.take(text.len() as int) =~= text@);
    out
}

/// The name of the executable `base` on a platform.
pub fn executable(base: &str, platform: Platform) -> (name: String)
    ensures
        name@ == executable_name(base@, platform),
{
    match platform {
        Platform::Windows => concat(base, ".exe"),
        _ => base.to_owned(),
    }
}

/// The provider that a name stands for.
pub fn get_provider(name: &str) -> (kind: Option<ProviderKind>)
    ensures
        kind == provider_for(name@),
{
    let chars = chars_of(name);
    let lower = to_lower(chars.as_slice());
    let n = string_of(lower.as_slice());
    if same_text(n.as_str(), "yt-dlp") {
        Some(ProviderKind::YtDlp)
    } else if same_text(n.as_str(), "ffmpeg") {
        Some(ProviderKind::Ffmpeg)
    } else if same_text(n.as_str(), "deno") {
        Some(ProviderKind::Deno)
    } else if same_text(n.as_str(), "bun") {
        Some(ProviderKind::Bun)
    } else if same_text(n.as_str(), "aria2") || same_text(n.as_str(), "aria2c") {
        Some(ProviderKind::Aria2)
    } else {
        None
    }
}

/// The provider of the extraction tool.
#[derive(Clone, Copy, Debug, PartialEq, Eq, Structural)]
pub struct YtDlpProvider;

/// The provider of the transcoder.
#[derive(Clone, Copy, Debug, PartialEq, Eq, Structural)]
pub struct FfmpegProvider;

/// The provider of one JavaScript runtime.
#[derive(Clone, Copy, Debug, PartialEq, Eq, Structural)]
pub struct DenoProvider;

/// The provider of another JavaScript runtime.
#[derive(Clone, Copy, Debug, PartialEq, Eq, Structural)]
pub struct BunProvider;

/// The provider of the multi-connection downloader.
#[derive(Clone, Copy, Debug, PartialEq, Eq, Structural)]
pub struct Aria2Provider;

impl YtDlpProvider {
    /// Which of the managed binaries this provider stands for.
    pub fn kind(&self) -> (k: ProviderKind)
        ensures
            k == ProviderKind::YtDlp,
    {
        ProviderKind::YtDlp
    }
}

impl FfmpegProvider {
    /// Which of the managed binaries this provider stands for.
    pub fn kind(&self) -> (k: ProviderKind)
        ensures
            k == ProviderKind::Ffmpeg,
    {
        ProviderKind::Ffmpeg
    }
}

impl DenoProvider {
    /// Which of the managed binaries this provider stands for.
    pub fn kind(&self) -> (k: ProviderKind)
        ensures
            k == ProviderKind::Deno,
    {
        ProviderKind::Deno
    }
}

impl BunProvider {
    /// Which of the managed binaries this provider stands for.
    pub fn kind(&self) -> (k: ProviderKind)
        ensures
            k == ProviderKind::Bun,
    {
        ProviderKind::Bun
    }
}

impl Aria2Provider {
    /// Which of the managed binaries this provider stands for.
    pub fn kind(&self) -> (k: ProviderKind)
        ensures
            k == ProviderKind::Aria2,
    {
        ProviderKind::Aria2
    }
}

/// Matches a version of three numbers.
pub open spec fn semver_pattern() -> Seq<char> {
    "(\\d+)\\.(\\d+)\\.(\\d+)"@
}

/// Matches a date of year, month and day.
pub open spec fn date_pattern() -> Seq<char> {
    "(\\d{4})-(\\d{2})-(\\d{2})"@
}

/// The number that a group of a match spells, if it spells one that fits
/// 32 bits.
pub open spec fn group_number(groups: Seq<Option<Seq<char>>>, i: int) -> Option<u32> {
    if 0 <= i < groups.len() && groups[i].is_some() && groups[i].unwrap().len() > 0 && all_digits(
        groups[i].unwrap(),
    ) && digits_value(groups[i].unwrap()) <= u32::MAX {
        Some(digits_value(groups[i].unwrap()) as u32)
    } else {
        None
    }
}

/// The three numbers that the first three groups of a match spell.
pub open spec fn triple_of(found: Option<Seq<Option<Seq<char>>>>) -> Option<(u32, u32, u32)> {
    match found {
        Some(groups) => if group_number(groups, 1).is_some() && group_number(groups, 2).is_some()
            && group_number(groups, 3).is_some() {
            Some(
                (
                    group_number(groups, 1).unwrap(),
                    group_number(groups, 2).unwrap(),
                    group_number(groups, 3).unwrap(),
                ),
            )
        } else {
            None
        },
        None => None,
    }
}

/// Whether the first triple comes at or after the second, the first
/// number counting most.
pub open spec fn triple_at_least(a: (u32, u32, u32), b: (u32, u32, u32)) -> bool {
    a.0 > b.0 || (a.0 == b.0 && (a.1 > b.1 || (a.1 == b.1 && a.2 >= b.2)))
}

/// Whether two texts hold versions and the first is at least the second.
pub open spec fn is_at_least(
    current: Option<Seq<Option<Seq<char>>>>,
    required: Option<Seq<Option<Seq<char>>>>,
) -> bool {
    triple_of(current).is_some() && triple_of(required).is_some() && triple_at_least(
        triple_of(current).unwrap(),
        triple_of(required).unwrap(),
    )
}

fn number_at(groups: &Vec<Option<String>>, i: usize) -> (n: Option<u32>)
    ensures
        n == group_number(group_views(groups@), i as int),
{
    if i >= groups.len() {
        return None;
    }
    match &groups[i] {
        Some(text) => {
            let chars = chars_of(text.as_str());
            match parse_digits(chars.as_slice(), 0xFFFF_FFFF) {
                Some(v) => Some(v as u32),
                None => None,
            }
        },
        None => None,
    }
}

fn triple(found: &Option<Vec<Option<String>>>) -> (t: Option<(u32, u32, u32)>)
    ensures
        t == triple_of(captures_view(*found)),
{
    match found {
        Some(groups) => {
            match (number_at(groups, 1), number_at(groups, 2), number_at(groups, 3)) {
                (Some(a), Some(b), Some(c)) => Some((a, b, c)),
                _ => None,
            }
        },
        None => None,
    }
}

/// Decides whether the version found in one text is at least the one
/// found in another, given the groups that the pattern found in each.
pub fn version_at_least(
    current: &Option<Vec<Option<String>>>,
    required: &Option<Vec<Option<String>>>,
) -> (r: bool)
    ensures
        r == is_at_least(captures_view(*current), captures_view(*required)),
{
    match (triple(current), triple(required)) {
        (Some(a), Some(b)) => a.0 > b.0 || (a.0 == b.0 && (a.1 > b.1 || (a.1 == b.1 && a.2
            >= b.2))),
        _ => false,
    }
}

/// Whether `current` holds a version of three numbers that is at least the
/// one that `required` holds.
pub fn compare_semver(current: &str, required: &str) -> (r: bool)
    ensures
        r == is_at_least(
            regex_captures(semver_pattern(), current@),
            regex_captures(semver_pattern(), required@),
        ),
{
    let c = captures("(\\d+)\\.(\\d+)\\.(\\d+)", current);
    let q = captures("(\\d+)\\.(\\d+)\\.(\\d+)", required);
    version_at_least(&c, &q)
}

/// Whether `current` holds a date that is at or after the one that
/// `required` holds.
pub fn compare_date(current: &str, required: &str) -> (r: bool)
    ensures
        r == is_at_least(
            regex_captures(date_pattern(), current@),
            regex_captures(date_pattern(), required@),
        ),
{
    let c = captures("(\\d{4})-(\\d{2})-(\\d{2})", current);
    let q = captures("(\\d{4})-(\\d{2})-(\\d{2})", required);
    version_at_least(&c, &q)
}

/// Where the latest release of a repository is asked for.
pub open spec fn release_api_url(repo: Seq<char>) -> Seq<char> {
    "https://api.github.com/repos/"@ + repo + "/releases/latest"@
}

/// Builds the address at which the latest release of a repository is asked for.
pub fn latest_release_url(repo: &str) -> (url: String)
    ensures
        url@ == release_api_url(repo@),
{
    let mut out = chars_of("https://api.github.com/repos/");
    push_str(&mut out, repo);
    push_str(&mut out, "/releases/latest");
    string_of(out.as_slice())
}

/// What the answer of the release service means: the tag of the latest
/// release, or why there is none. A refusal with status 403 or 429 is a
/// rate limit.
pub open spec fn release_tag(status: u16, tag: Option<Seq<char>>) -> Result<Seq<char>, Seq<char>> {
    if status == 403 || status == 429 {
        Err("GitHub API rate limit exceeded"@)
    } else if !(200 <= status < 300) {
        Err("GitHub API Error: "@ + decimal(status as nat))
    } else {
        match tag {
            Some(t) => Ok(t),
            None => Err("Could not find tag_name"@),
        }
    }
}

/// The view of a result of two strings.
pub open spec fn tag_view(r: Result<String, String>) -> Result<Seq<char>, Seq<char>> {
    match r {
        Ok(t) => Ok(t@),
        Err(e) => Err(e@),
    }
}

/// Decides what the answer of the release service means, given the tag
/// that its body names.
pub fn read_release_tag(status: u16, tag: Option<String>) -> (r: Result<String, String>)
    ensures
        tag_view(r) == release_tag(status, opt_view(tag)),
{
    if status == 403 || status == 429 {
        Err("GitHub API rate limit exceeded".to_owned())
    } else if !(200 <= status && status < 300) {
        let mut out = chars_of("GitHub API Error: ");
        push_decimal(&mut out, status as u64);
        Err(string_of(out.as_slice()))
    } else {
        match tag {
            Some(t) => Ok(t),
            None => Err("Could not find tag_name".to_owned()),
        }
    }
}

/// Reads the answer of the release service: the status and the body.
pub fn get_latest_github_tag(status: u16, body: &str) -> (r: Result<String, String>)
    ensures
        tag_view(r) == release_tag(status, json_string_at(body@, "tag_name"@)),
{
    read_release_tag(status, string_field(body, "tag_name"))
}

/// Whether a file of an archive is one of the binaries looked for: its
/// name is one of theirs.
pub open spec fn is_wanted_file(path: Seq<char>, binaries: Seq<Seq<char>>) -> bool {
    match file_name_of(path) {
        Some(name) => binaries.contains(name),
        None => false,
    }
}

/// The name of a file of an archive, where it is one of the binaries looked for.
pub fn wanted_file(path: &str, binaries: &Vec<String>) -> (name: Option<String>)
    ensures
        name.is_some() == is_wanted_file(path@, views(binaries@)),
        name.is_some() ==> Some(name.unwrap()@) == file_name_of(path@),
{
    match file_name(path) {
        Some(name) => {
            let mut i: usize = 0;
            while i < binaries.len()
                invariant
                    i <= binaries.len(),
                    file_name_of(path@) == Some(name@),
                    forall|j: int| 0 <= j < i ==> #[trigger] views(binaries@)[j] != name@,
                decreases binaries.len() - i,
            {
                if same_text(binaries[i].as_str(), name.as_str()) {
                    assert(views(binaries@)[i as int] == name@);
                    assert(views(binaries@).contains(name@));
                    return Some(name);
                }
                i = i + 1;
            }
            None
        },
        None => None,
    }
}

/// A file to be moved, and where to.
pub ghost struct MoveView {
    pub from: Seq<char>,
    pub to: Seq<char>,
}

/// The views of a sequence of moves.
pub open spec fn move_views(v: Seq<(String, String)>) -> Seq<MoveView> {
    v.map_values(|m: (String, String)| MoveView { from: m.0@, to: m.1@ })
}

/// The moves that bring the binaries among the files of an unpacked
/// archive to the top of the target directory, in the order of the files.
/// A binary that is in its place stays.
pub open spec fn flatten_moves(files: Seq<Seq<char>>, target_dir: Seq<char>, binaries: Seq<Seq<char>>) -> Seq<
    MoveView,
>
    decreases files.len(),
{
    if files.len() == 0 {
        Seq::empty()
    } else {
        let before = flatten_moves(files.drop_last(), target_dir, binaries);
        let file = files.last();
        if is_wanted_file(file, binaries) && file != joined_path(
            target_dir,
            file_name_of(file).unwrap(),
        ) {
            before.push(MoveView { from: file, to: joined_path(target_dir, file_name_of(file).unwrap()) })
        } else {
            before
        }
    }
}

/// Whether one of the files is one of the binaries.
pub open spec fn any_wanted(files: Seq<Seq<char>>, binaries: Seq<Seq<char>>) -> bool {
    exists|i: int| 0 <= i < files.len() && is_wanted_file(#[trigger] files[i], binaries)
}

/// Plans the moves that bring the binaries of an unpacked archive to the
/// top of the target directory. An archive without any of the binaries is
/// an error.
pub fn plan_flatten(files: &Vec<String>, target_dir: &str, binaries: &Vec<String>) -> (r: Result<
    Vec<(String, String)>,
    String,
>)
    ensures
        r.is_ok() == any_wanted(views(files@), views(binaries@)),
        r.is_ok() ==> move_views(r.unwrap()@) == flatten_moves(
            views(files@),
            target_dir@,
            views(binaries@),
        ),
        r.is_err() ==> r.unwrap_err()@ == "Binary not found in archive"@,
{
    let mut moves: Vec<(String, String)> = Vec::new();
    let mut found = false;
    let mut i: usize = 0;
    assert(move_views(moves@) =~= Seq::empty());
    while i < files.len()
        invariant
            i <= files.len(),
            move_views(moves@) == flatten_moves(
                views(files@).take(i as int),
                target_dir@,
                views(binaries@),
            ),
            found == any_wanted(views(files@).take(i as int), views(binaries@)),
        decreases files.len() - i,
    {
        let ghost head = views(files@).take(i as int);
        let ghost next = views(files@).take(i + 1);
        let ghost done = move_views(moves@);
        proof {
            assert(next.drop_last() =~= head);
            assert(next.last() == files@[i as int]@);
        }
        let wanted = wanted_file(files[i].as_str(), binaries);
        proof {
            if wanted.is_some() {
                assert(is_wanted_file(next[i as int], views(binaries@)));
            } else if found {
                let k = choose|k: int|
                    0 <= k < head.len() && is_wanted_file(#[trigger] head[k], views(binaries@));
                assert(next[k] == head[k]);
            } else {
                assert forall|k: int| 0 <= k < next.len() implies !is_wanted_file(
                    #[trigger] next[k],
                    views(binaries@),
                ) by {
                    if k < i {
                        assert(head[k] == next[k]);
                    }
                }
            }
        }
        match wanted {
            Some(name) => {
                found = true;
                let dest = join_path(target_dir, name.as_str());
                if !same_text(files[i].as_str(), dest.as_str()) {
                    let from = files[i].clone();
                    moves.push((from, dest));
                    assert(move_views(moves@) =~= done.push(
                        MoveView { from: files@[i as int]@, to: dest@ },
                    ));
                }
            },
            None => {},
        }
        i = i + 1;
    }
    assert(views(files@).take(files.len() as int) =~= views(files@));
    if found {
        Ok(moves)
    } else {
        Err("Binary not found in archive".to_owned())
    }
}

} // verus!
