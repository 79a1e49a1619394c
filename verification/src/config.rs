//! The settings that the core reads.

use vstd::prelude::*;
use crate::models::opt_view;
use crate::text::{chars_of, same_text, trim, trimmed, views, push_text};

verus! {

/// Limit on jobs that use the network at once, unless configured.
pub const DEFAULT_MAX_CONCURRENT_DOWNLOADS: u32 = 4;

/// Limit on worker processes alive at once, unless configured.
pub const DEFAULT_MAX_TOTAL_INSTANCES: u32 = 10;

/// General settings.
#[derive(Debug)]
pub struct GeneralConfig {
    pub download_path: Option<String>,
    pub filename_template: String,
    pub template_blocks_json: Option<String>,
    pub max_concurrent_downloads: u32,
    pub max_total_instances: u32,
    pub log_level: String,
    pub check_for_updates: bool,
    pub cookies_path: Option<String>,
    pub cookies_from_browser: Option<String>,
}

impl Default for GeneralConfig {
    fn default() -> (config: Self)
        ensures
            config.download_path.is_none(),
            config.filename_template@ == "%(title)s.%(ext)s"@,
            config.template_blocks_json.is_none(),
            config.max_concurrent_downloads == DEFAULT_MAX_CONCURRENT_DOWNLOADS,
            config.max_total_instances == DEFAULT_MAX_TOTAL_INSTANCES,
            config.log_level@ == "info"@,
            config.check_for_updates,
            config.cookies_path.is_none(),
            config.cookies_from_browser.is_none(),
    {
        GeneralConfig {
            download_path: None,
            filename_template: "%(title)s.%(ext)s".to_owned(),
            template_blocks_json: None,
            max_concurrent_downloads: DEFAULT_MAX_CONCURRENT_DOWNLOADS,
            max_total_instances: DEFAULT_MAX_TOTAL_INSTANCES,
            log_level: "info".to_owned(),
            check_for_updates: true,
            cookies_path: None,
            cookies_from_browser: None,
        }
    }
}

/// The limits under which the manager admits work.
#[derive(Clone, Copy, Debug, PartialEq, Eq, Structural)]
pub struct Limits {
    pub max_concurrent_downloads: u32,
    pub max_total_instances: u32,
}

/// Download preferences as the host stores them.
#[derive(Debug)]
pub struct PreferenceConfig {
    pub mode: String,
    pub format_preset: String,
    pub video_preset: String,
    pub audio_preset: String,
    pub video_resolution: String,
    pub embed_metadata: bool,
    pub embed_thumbnail: bool,
    pub live_from_start: bool,
}

impl Default for PreferenceConfig {
    fn default() -> (config: Self)
        ensures
            config.mode@ == "video"@,
            config.format_preset@ == "best"@,
            config.video_preset@ == "best"@,
            config.audio_preset@ == "audio_best"@,
            config.video_resolution@ == "best"@,
            !config.embed_metadata,
            !config.embed_thumbnail,
            !config.live_from_start,
    {
        PreferenceConfig {
            mode: "video".to_owned(),
            format_preset: "best".to_owned(),
            video_preset: "best".to_owned(),
            audio_preset: "audio_best".to_owned(),
            video_resolution: "best".to_owned(),
            embed_metadata: false,
            embed_thumbnail: false,
            live_from_start: false,
        }
    }
}

/// Where the extraction tool takes its cookies from.
#[derive(Debug)]
pub enum CookieSource {
    Unset,
    File(String),
    Browser(String),
}

pub ghost enum CookieSourceView {
    Unset,
    File(Seq<char>),
    Browser(Seq<char>),
}

impl View for CookieSource {
    type V = CookieSourceView;

    open spec fn view(&self) -> CookieSourceView {
        match *self {
            CookieSource::Unset => CookieSourceView::Unset,
            CookieSource::File(p) => CookieSourceView::File(p@),
            CookieSource::Browser(b) => CookieSourceView::Browser(b@),
        }
    }
}

/// Whether a cookie setting counts as given: it is there, it is not blank,
/// and it is not the word `none`.
pub open spec fn is_given(setting: Option<Seq<char>>) -> bool {
    match setting {
        Some(s) => trimmed(s).len() > 0 && s != "none"@,
        None => false,
    }
}

/// The cookie source that two settings select: the file where one is given,
/// else the browser where one is given.
pub open spec fn selected_cookies(
    path: Option<Seq<char>>,
    browser: Option<Seq<char>>,
) -> CookieSourceView {
    if is_given(path) {
        CookieSourceView::File(path.unwrap())
    } else if is_given(browser) {
        CookieSourceView::Browser(browser.unwrap())
    } else {
        CookieSourceView::Unset
    }
}

/// The arguments that hand a cookie source to the extraction tool.
pub open spec fn cookie_flags(source: CookieSourceView) -> Seq<Seq<char>> {
    match source {
        CookieSourceView::Unset => Seq::empty(),
        CookieSourceView::File(p) => seq!["--cookies"@, p],
        CookieSourceView::Browser(b) => seq!["--cookies-from-browser"@, b],
    }
}

fn given(setting: &Option<String>) -> (r: bool)
    ensures
        r == is_given(opt_view(*setting)),
{
    match setting {
        Some(s) => {
            let chars = chars_of(s.as_str());
            let t = trim(chars.as_slice());
            t.len() > 0 && !same_text(s.as_str(), "none")
        },
        None => false,
    }
}

impl GeneralConfig {
    /// The limits that this configuration sets for the manager.
    pub fn limits(&self) -> (l: Limits)
        ensures
            l.max_concurrent_downloads == self.max_concurrent_downloads,
            l.max_total_instances == self.max_total_instances,
    {
        Limits {
            max_concurrent_downloads: self.max_concurrent_downloads,
            max_total_instances: self.max_total_instances,
        }
    }

    /// The cookie source that this configuration selects.
    pub fn cookie_source(&self) -> (source: CookieSource)
        ensures
            source@ == selected_cookies(
                opt_view(self.cookies_path),
                opt_view(self.cookies_from_browser),
            ),
    {
        if given(&self.cookies_path) {
            match &self.cookies_path {
                Some(p) => CookieSource::File(p.clone()),
                None => CookieSource::Unset,
            }
        } else if given(&self.cookies_from_browser) {
            match &self.cookies_from_browser {
                Some(b) => CookieSource::Browser(b.clone()),
                None => CookieSource::Unset,
            }
        } else {
            CookieSource::Unset
        }
    }
}

impl CookieSource {
    /// The arguments that hand this source to the extraction tool.
    pub fn flags(&self) -> (args: Vec<String>)
        ensures
            views(args@) == cookie_flags(self@),
    {
        let mut args: Vec<String> = Vec::new();
        match self {
            CookieSource::Unset => {},
            CookieSource::File(p) => {
                push_text(&mut args, "--cookies");
                push_text(&mut args, p.as_str());
            },
            CookieSource::Browser(b) => {
                push_text(&mut args, "--cookies-from-browser");
                push_text(&mut args, b.as_str());
            },
        }
        assert(views(args@) =~= cookie_flags(self@));
        args
    }
}

} // verus!
