//! What the host is told about the helper binaries, and the small
//! decisions around installing them.

use vstd::prelude::*;
use crate::deps::{
    compare_date, compare_semver, date_pattern, executable, executable_name, is_at_least,
    semver_pattern, Platform,
};
use crate::history::{lines_of, split_lines};
use crate::models::{clone_opt, opt_view};
use crate::pattern::{captures, captures_view, group_views, regex_captures};
use crate::text::{chars_of, push_str, same_text, string_of, trim, trimmed, views};

verus! {

/// What is known of one helper binary.
#[derive(Debug)]
pub struct DependencyInfo {
    pub name: String,
    pub available: bool,
    pub version: Option<String>,
    pub path: Option<String>,
    pub is_supported: bool,
    pub is_recommended: bool,
    pub is_latest: bool,
}

pub ghost struct DependencyInfoView {
    pub name: Seq<char>,
    pub available: bool,
    pub version: Option<Seq<char>>,
    pub path: Option<Seq<char>>,
    pub is_supported: bool,
    pub is_recommended: bool,
    pub is_latest: bool,
}

impl View for DependencyInfo {
    type V = DependencyInfoView;

    open spec fn view(&self) -> DependencyInfoView {
        DependencyInfoView {
            name: self.name@,
            available: self.available,
            version: opt_view(self.version),
            path: opt_view(self.path),
            is_supported: self.is_supported,
            is_recommended: self.is_recommended,
            is_latest: self.is_latest,
        }
    }
}

impl Clone for DependencyInfo {
    fn clone(&self) -> (r: Self)
        ensures
            r == *self,
    {
        DependencyInfo {
            name: self.name.clone(),
            available: self.available,
            version: clone_opt(&self.version),
            path: clone_opt(&self.path),
            is_supported: self.is_supported,
            is_recommended: self.is_recommended,
            is_latest: self.is_latest,
        }
    }
}

/// What is known of all helper binaries.
#[derive(Debug)]
pub struct AppDependencies {
    pub yt_dlp: DependencyInfo,
    pub ffmpeg: DependencyInfo,
    pub js_runtime: DependencyInfo,
    pub aria2: DependencyInfo,
}

/// How weighty a message of the front end is.
#[derive(Clone, Copy, Debug, PartialEq, Eq, Structural)]
pub enum LogLevel {
    Info,
    Warn,
    Error,
    Debug,
}

/// The first line of a text, trimmed; empty where the text is.
pub open spec fn first_line_of(text: Seq<char>) -> Seq<char> {
    if lines_of(text).len() > 0 {
        trimmed(lines_of(text)[0])
    } else {
        Seq::empty()
    }
}

/// The first line of a text, trimmed.
pub fn first_line(text: &str) -> (line: String)
    ensures
        line@ == first_line_of(text@),
{
    let lines = split_lines(text);
    if lines.len() > 0 {
        let chars = chars_of(lines[0].as_str());
        let kept = trim(chars.as_slice());
        string_of(kept.as_slice())
    } else {
        String::new()
    }
}

/// Where a binary is: in the directory of managed binaries where it is
/// there, else where the search of the system found it.
pub open spec fn located_at(local: Option<Seq<char>>, searched: Option<Seq<char>>) -> Option<
    Seq<char>,
> {
    match local {
        Some(path) => Some(path),
        None => match searched {
            Some(output) => Some(first_line_of(output)),
            None => None,
        },
    }
}

/// Decides where a binary is. `local` is its path in the directory of
/// managed binaries, if it is there; `searched` is what a successful
/// search of the system printed.
pub fn locate_binary(local: &Option<String>, searched: &Option<String>) -> (path: Option<String>)
    ensures
        opt_view(path) == located_at(opt_view(*local), opt_view(*searched)),
{
    match local {
        Some(path) => Some(path.clone()),
        None => match searched {
            Some(output) => Some(first_line(output.as_str())),
            None => None,
        },
    }
}

/// What is known of a binary that was looked for and asked for its version.
pub open spec fn binary_info(
    name: Seq<char>,
    path: Option<Seq<char>>,
    version_output: Option<Seq<char>>,
) -> DependencyInfoView {
    DependencyInfoView {
        name,
        available: path.is_some(),
        version: if path.is_some() {
            match version_output {
                Some(output) => Some(first_line_of(output)),
                None => None,
            }
        } else {
            None
        },
        path,
        is_supported: true,
        is_recommended: true,
        is_latest: true,
    }
}

/// Puts together what is known of a binary. `path` is where it was found,
/// if it was; `version_output` is what it printed when asked for its
/// version, if that went well.
pub fn resolve_binary_info(bin_name: &str, path: Option<String>, version_output: &Option<String>) -> (info:
    DependencyInfo)
    ensures
        info@ == binary_info(bin_name@, opt_view(path), opt_view(*version_output)),
{
    let version = if path.is_some() {
        match version_output {
            Some(output) => Some(first_line(output.as_str())),
            None => None,
        }
    } else {
        None
    };
    DependencyInfo {
        name: bin_name.to_owned(),
        available: path.is_some(),
        version,
        path,
        is_supported: true,
        is_recommended: true,
        is_latest: true,
    }
}

/// The JavaScript runtimes that are looked for, best first.
#[derive(Clone, Copy, Debug, PartialEq, Eq, Structural)]
pub enum JsRuntime {
    Deno,
    Node,
    Bun,
    QuickJs,
    QuickJsNg,
}

/// How many runtimes are looked for.
pub const JS_RUNTIME_COUNT: usize = 5;

/// The runtime at a place of the search order.
pub open spec fn runtime_at(i: int) -> JsRuntime {
    if i == 0 {
        JsRuntime::Deno
    } else if i == 1 {
        JsRuntime::Node
    } else if i == 2 {
        JsRuntime::Bun
    } else if i == 3 {
        JsRuntime::QuickJs
    } else {
        JsRuntime::QuickJsNg
    }
}

/// The name of a runtime's executable without its ending.
pub open spec fn runtime_base(r: JsRuntime) -> Seq<char> {
    match r {
        JsRuntime::Deno => "deno"@,
        JsRuntime::Node => "node"@,
        JsRuntime::Bun => "bun"@,
        JsRuntime::QuickJs => "qjs"@,
        JsRuntime::QuickJsNg => "qjs-ng"@,
    }
}

/// The name of a runtime's engine.
pub open spec fn runtime_engine(r: JsRuntime) -> Seq<char> {
    match r {
        JsRuntime::Deno => "deno"@,
        JsRuntime::Node => "node"@,
        JsRuntime::Bun => "bun"@,
        JsRuntime::QuickJs => "quickjs"@,
        JsRuntime::QuickJsNg => "quickjs-ng"@,
    }
}

/// The name under which a runtime shows.
pub open spec fn runtime_label(r: JsRuntime) -> Seq<char> {
    match r {
        JsRuntime::Deno => "Deno"@,
        JsRuntime::Node => "Node.js"@,
        JsRuntime::Bun => "Bun"@,
        _ => "QuickJS"@,
    }
}

impl JsRuntime {
    /// The runtime at place `i` of the search order.
    pub fn at(i: usize) -> (r: JsRuntime)
        ensures
            r == runtime_at(i as int),
    {
        if i == 0 {
            JsRuntime::Deno
        } else if i == 1 {
            JsRuntime::Node
        } else if i == 2 {
            JsRuntime::Bun
        } else if i == 3 {
            JsRuntime::QuickJs
        } else {
            JsRuntime::QuickJsNg
        }
    }

    /// The name of the executable on a platform.
    pub fn executable(&self, platform: Platform) -> (name: String)
        ensures
            name@ == executable_name(runtime_base(*self), platform),
    {
        match self {
            JsRuntime::Deno => executable("deno", platform),
            JsRuntime::Node => executable("node", platform),
            JsRuntime::Bun => executable("bun", platform),
            JsRuntime::QuickJs => executable("qjs", platform),
            JsRuntime::QuickJsNg => executable("qjs-ng", platform),
        }
    }

    /// The name of this runtime's engine.
    pub fn engine(&self) -> (name: String)
        ensures
            name@ == runtime_engine(*self),
    {
        match self {
            JsRuntime::Deno => "deno".to_owned(),
            JsRuntime::Node => "node".to_owned(),
            JsRuntime::Bun => "bun".to_owned(),
            JsRuntime::QuickJs => "quickjs".to_owned(),
            JsRuntime::QuickJsNg => "quickjs-ng".to_owned(),
        }
    }

    /// The name under which this runtime shows.
    pub fn label(&self) -> (name: String)
        ensures
            name@ == runtime_label(*self),
    {
        match self {
            JsRuntime::Deno => "Deno".to_owned(),
            JsRuntime::Node => "Node.js".to_owned(),
            JsRuntime::Bun => "Bun".to_owned(),
            _ => "QuickJS".to_owned(),
        }
    }
}

/// The views of a sequence of optional strings.
pub open spec fn opt_views_of(v: Seq<Option<String>>) -> Seq<Option<Seq<char>>> {
    group_views(v)
}

/// The first runtime that was found, as the name of its engine and the
/// path of its executable. `found` holds, in search order, where each
/// runtime is, if it is anywhere.
pub open spec fn first_runtime(found: Seq<Option<Seq<char>>>) -> Option<(Seq<char>, Seq<char>)> {
    if exists|i: int| is_first_found(found, i) {
        let i = choose|i: int| is_first_found(found, i);
        Some((runtime_engine(runtime_at(i)), found[i].unwrap()))
    } else {
        None
    }
}

/// Whether place `i` of the search order is the first at which a runtime
/// was found.
pub open spec fn is_first_found(found: Seq<Option<Seq<char>>>, i: int) -> bool {
    0 <= i < found.len() && i < JS_RUNTIME_COUNT && found[i].is_some() && forall|j: int|
        0 <= j < i ==> (#[trigger] found[j]).is_none()
}

/// Picks the JavaScript runtime to use: the first that was found.
pub fn get_js_runtime_info(found: &Vec<Option<String>>) -> (r: Option<(String, String)>)
    ensures
        crate::command::pair_view(r) == first_runtime(opt_views_of(found@)),
{
    let mut i: usize = 0;
    while i < found.len() && i < JS_RUNTIME_COUNT
        invariant
            i <= found.len(),
            i <= JS_RUNTIME_COUNT,
            forall|j: int| 0 <= j < i ==> (#[trigger] opt_views_of(found@)[j]).is_none(),
        decreases found.len() - i,
    {
        match &found[i] {
            Some(path) => {
                proof {
                    let f = opt_views_of(found@);
                    assert(is_first_found(f, i as int));
                    let k = choose|k: int| is_first_found(f, k);
                    if k < i {
                        assert(f[k].is_none());
                    }
                    if i < k {
                        assert(f[i as int].is_none());
                    }
                }
                return Some((JsRuntime::at(i).engine(), path.clone()));
            },
            None => {},
        }
        i = i + 1;
    }
    proof {
        let f = opt_views_of(found@);
        assert forall|k: int| !is_first_found(f, k) by {
            if 0 <= k < i {
                assert(f[k].is_none());
            }
        }
    }
    None
}

/// What is told of the host's JavaScript runtime where none was found.
pub open spec fn no_runtime() -> DependencyInfoView {
    DependencyInfoView {
        name: "None"@,
        available: false,
        version: None,
        path: None,
        is_supported: false,
        is_recommended: false,
        is_latest: false,
    }
}

/// Whether a runtime of a given version is supported, and whether it is
/// recommended. `newer_than` tells whether the version is at least a
/// given one, and `dated_after` whether it is at least a given date.
pub open spec fn runtime_rating(
    runtime: JsRuntime,
    at_least_2_0_0: bool,
    at_least_20_0_0: bool,
    at_least_22_0_0: bool,
    at_least_1_0_31: bool,
    dated_2023_12_09: bool,
) -> (bool, bool) {
    match runtime {
        JsRuntime::Deno => (at_least_2_0_0, true),
        JsRuntime::Node => (at_least_20_0_0, at_least_22_0_0),
        JsRuntime::Bun => (at_least_1_0_31, true),
        _ => (dated_2023_12_09, true),
    }
}

/// Whether the version `version` of a runtime is supported and recommended.
pub open spec fn rating_of(runtime: JsRuntime, version: Seq<char>) -> (bool, bool) {
    runtime_rating(
        runtime,
        is_at_least(
            regex_captures(semver_pattern(), version),
            regex_captures(semver_pattern(), "2.0.0"@),
        ),
        is_at_least(
            regex_captures(semver_pattern(), version),
            regex_captures(semver_pattern(), "20.0.0"@),
        ),
        is_at_least(
            regex_captures(semver_pattern(), version),
            regex_captures(semver_pattern(), "22.0.0"@),
        ),
        is_at_least(
            regex_captures(semver_pattern(), version),
            regex_captures(semver_pattern(), "1.0.31"@),
        ),
        is_at_least(
            regex_captures(date_pattern(), version),
            regex_captures(date_pattern(), "2023-12-09"@),
        ),
    )
}

/// Rates a runtime of a given version.
pub fn rate_runtime(runtime: JsRuntime, version: &str) -> (r: (bool, bool))
    ensures
        r == rating_of(runtime, version@),
{
    match runtime {
        JsRuntime::Deno => (compare_semver(version, "2.0.0"), true),
        JsRuntime::Node => (compare_semver(version, "20.0.0"), compare_semver(version, "22.0.0")),
        JsRuntime::Bun => (compare_semver(version, "1.0.31"), true),
        _ => (compare_date(version, "2023-12-09"), true),
    }
}

/// What is told of a runtime that was found, given what is known of its binary.
pub open spec fn rated_runtime(runtime: JsRuntime, info: DependencyInfoView) -> DependencyInfoView {
    let version = match info.version {
        Some(v) => v,
        None => Seq::empty(),
    };
    DependencyInfoView {
        name: runtime_label(runtime),
        is_supported: rating_of(runtime, version).0,
        is_recommended: rating_of(runtime, version).1,
        ..info
    }
}

/// Whether place `i` is the first at which a runtime is available.
pub open spec fn is_first_available(infos: Seq<DependencyInfoView>, i: int) -> bool {
    0 <= i < infos.len() && i < JS_RUNTIME_COUNT && infos[i].available && forall|j: int|
        0 <= j < i ==> !(#[trigger] infos[j]).available
}

/// What is told of the host's JavaScript runtime: the first one that is
/// available, rated by its version. `infos` holds, in search order, what
/// is known of each runtime's binary.
pub open spec fn runtime_report(infos: Seq<DependencyInfoView>) -> DependencyInfoView {
    if exists|i: int| is_first_available(infos, i) {
        let i = choose|i: int| is_first_available(infos, i);
        rated_runtime(runtime_at(i), infos[i])
    } else {
        no_runtime()
    }
}

/// The views of a sequence of dependency infos.
pub open spec fn info_views(v: Seq<DependencyInfo>) -> Seq<DependencyInfoView> {
    v.map_values(|i: DependencyInfo| i@)
}

/// Tells what the host has for a JavaScript runtime.
pub fn analyze_js_runtime(infos: &Vec<DependencyInfo>) -> (report: DependencyInfo)
    ensures
        report@ == runtime_report(info_views(infos@)),
{
    let mut i: usize = 0;
    while i < infos.len() && i < JS_RUNTIME_COUNT
        invariant
            i <= infos.len(),
            i <= JS_RUNTIME_COUNT,
            forall|j: int| 0 <= j < i ==> !(#[trigger] info_views(infos@)[j]).available,
        decreases infos.len() - i,
    {
        if infos[i].available {
            proof {
                let f = info_views(infos@);
                assert(is_first_available(f, i as int));
                let k = choose|k: int| is_first_available(f, k);
                if k < i {
                    assert(!f[k].available);
                }
                if i < k {
                    assert(!f[i as int].available);
                }
            }
            let runtime = JsRuntime::at(i);
            let mut report = infos[i].clone();
            let version = match &report.version {
                Some(v) => v.clone(),
                None => String::new(),
            };
            let (supported, recommended) = rate_runtime(runtime, version.as_str());
            report.name = runtime.label();
            report.is_supported = supported;
            report.is_recommended = recommended;
            return report;
        }
        i = i + 1;
    }
    proof {
        let f = info_views(infos@);
        assert forall|k: int| !is_first_available(f, k) by {
            if 0 <= k < i {
                assert(!f[k].available);
            }
        }
    }
    DependencyInfo {
        name: "None".to_owned(),
        available: false,
        version: None,
        path: None,
        is_supported: false,
        is_recommended: false,
        is_latest: false,
    }
}

/// Matches the version in what the transcoder prints.
pub open spec fn ffmpeg_version_pattern() -> Seq<char> {
    "ffmpeg version ([^\\s]+)"@
}

/// Matches the version in what the multi-connection downloader prints.
pub open spec fn aria2_version_pattern() -> Seq<char> {
    "aria2 version ([^\\s]+)"@
}

/// The version that a pattern finds in a line: its first group where it
/// matches, else the line as it is.
pub open spec fn version_in(line: Option<Seq<char>>, found: Option<Seq<Option<Seq<char>>>>) -> Option<
    Seq<char>,
> {
    match line {
        Some(text) => match found {
            Some(groups) => if groups.len() > 1 && groups[1].is_some() {
                groups[1]
            } else {
                line
            },
            None => line,
        },
        None => None,
    }
}

/// Picks the version out of a line, given the groups that a pattern found in it.
pub fn pick_version(line: &Option<String>, found: &Option<Vec<Option<String>>>) -> (version: Option<
    String,
>)
    ensures
        opt_view(version) == version_in(opt_view(*line), captures_view(*found)),
{
    match line {
        Some(text) => match found {
            Some(groups) => {
                if groups.len() > 1 {
                    match &groups[1] {
                        Some(v) => Some(v.clone()),
                        None => Some(text.clone()),
                    }
                } else {
                    Some(text.clone())
                }
            },
            None => Some(text.clone()),
        },
        None => None,
    }
}

/// What is told of a binary under a display name, its version picked out
/// by a pattern.
pub open spec fn labelled(info: DependencyInfoView, name: Seq<char>, pattern: Option<Seq<char>>) -> DependencyInfoView {
    DependencyInfoView {
        name,
        version: match pattern {
            Some(p) => match info.version {
                Some(v) => version_in(info.version, regex_captures(p, v)),
                None => None,
            },
            None => info.version,
        },
        ..info
    }
}

fn label_info(info: DependencyInfo, name: &str, pattern: Option<&str>) -> (out: DependencyInfo)
    ensures
        out@ == labelled(
            info@,
            name@,
            match pattern {
                Some(p) => Some(p@),
                None => None,
            },
        ),
{
    let mut out = info;
    out.name = name.to_owned();
    match pattern {
        Some(p) => {
            let found = match &out.version {
                Some(v) => captures(p, v.as_str()),
                None => None,
            };
            out.version = pick_version(&out.version, &found);
        },
        None => {},
    }
    out
}

/// Puts together what the host is told about the helper binaries, given
/// what is known of each.
pub fn check_dependencies(
    yt_dlp: DependencyInfo,
    ffmpeg: DependencyInfo,
    aria2: DependencyInfo,
    js_runtime: DependencyInfo,
) -> (all: AppDependencies)
    ensures
        all.yt_dlp@ == labelled(yt_dlp@, "yt-dlp"@, None),
        all.ffmpeg@ == labelled(ffmpeg@, "FFmpeg"@, Some(ffmpeg_version_pattern())),
        all.aria2@ == labelled(aria2@, "aria2c"@, Some(aria2_version_pattern())),
        all.js_runtime@ == js_runtime@,
{
    AppDependencies {
        yt_dlp: label_info(yt_dlp, "yt-dlp", None),
        ffmpeg: label_info(ffmpeg, "FFmpeg", Some("ffmpeg version ([^\\s]+)")),
        js_runtime,
        aria2: label_info(aria2, "aria2c", Some("aria2 version ([^\\s]+)")),
    }
}

/// The names of the binaries that are being installed.
#[derive(Debug)]
pub struct InstallLocks {
    names: Vec<String>,
}

impl View for InstallLocks {
    type V = Set<Seq<char>>;

    closed spec fn view(&self) -> Set<Seq<char>> {
        views(self.names@).to_set()
    }
}

/// The refusal of a second installation of the same binary.
pub open spec fn in_progress_text(name: Seq<char>) -> Seq<char> {
    "Installation of "@ + name + " is already in progress"@
}

impl InstallLocks {
    /// No name is held twice.
    pub closed spec fn wf(&self) -> bool {
        crate::history::all_distinct(views(self.names@))
    }

    /// No installation is running.
    pub fn new() -> (locks: Self)
        ensures
            locks.wf(),
            locks@ == Set::<Seq<char>>::empty(),
    {
        let locks = InstallLocks { names: Vec::new() };
        assert(locks@ =~= Set::empty());
        locks
    }

    fn position(&self, name: &str) -> (k: usize)
        ensures
            k <= self.names.len(),
            k < self.names.len() ==> self.names@[k as int]@ == name@,
            (k < self.names.len()) == self@.contains(name@),
    {
        let mut k: usize = 0;
        while k < self.names.len()
            invariant
                k <= self.names.len(),
                forall|j: int| 0 <= j < k ==> #[trigger] views(self.names@)[j] != name@,
            decreases self.names.len() - k,
        {
            if same_text(self.names[k].as_str(), name) {
                assert(views(self.names@)[k as int] == name@);
                return k;
            }
            k = k + 1;
        }
        k
    }

    /// Takes the lock of a binary. No two installations of one binary run
    /// at once: the lock is had only where nobody holds it.
    pub fn try_acquire(&mut self, name: &str) -> (r: Result<(), String>)
        ensures
            r.is_ok() == !old(self)@.contains(name@),
            r.is_ok() ==> final(self)@ == old(self)@.insert(name@),
            r.is_err() ==> final(self)@ == old(self)@ && r.unwrap_err()@ == in_progress_text(name@),
            old(self).wf() ==> final(self).wf(),
    {
        let k = self.position(name);
        if k < self.names.len() {
            let mut out = chars_of("Installation of ");
            push_str(&mut out, name);
            push_str(&mut out, " is already in progress");
            return Err(string_of(out.as_slice()));
        }
        self.names.push(name.to_owned());
        proof {
            let before = views(old(self).names@);
            let after = views(self.names@);
            assert(after =~= before.push(name@));
            assert forall|x: Seq<char>| after.to_set().contains(x) <==> before.to_set().insert(
                name@,
            ).contains(x) by {
                if after.contains(x) {
                    let j = choose|j: int| 0 <= j < after.len() && after[j] == x;
                    if j < before.len() {
                        assert(before[j] == x);
                    }
                }
                if before.contains(x) {
                    let j = choose|j: int| 0 <= j < before.len() && before[j] == x;
                    assert(after[j] == x);
                }
                if x == name@ {
                    assert(after[before.len() as int] == x);
                }
            }
            assert(self@ =~= old(self)@.insert(name@));
        }
        Ok(())
    }

    /// Gives the lock of a binary back.
    pub fn release(&mut self, name: &str)
        ensures
            final(self)@ == old(self)@.remove(name@),
            old(self).wf() ==> final(self).wf(),
    {
        let mut kept: Vec<String> = Vec::new();
        assert(crate::history::all_distinct(views(kept@)));
        let mut i: usize = 0;
        while i < self.names.len()
            invariant
                i <= self.names.len(),
                self.names == old(self).names,
                old(self).wf() ==> crate::history::all_distinct(views(kept@)),
                forall|j: int| 0 <= j < kept.len() ==> #[trigger] views(kept@)[j] != name@,
                forall|x: Seq<char>|
                    x != name@ ==> (views(kept@).contains(x) <==> views(self.names@).take(
                        i as int,
                    ).contains(x)),
            decreases self.names.len() - i,
        {
            let ghost head = views(self.names@).take(i as int);
            let ghost next = views(self.names@).take(i + 1);
            let ghost before = views(kept@);
            proof {
                assert(next =~= head.push(self.names@[i as int]@));
            }
            if !same_text(self.names[i].as_str(), name) {
                kept.push(self.names[i].clone());
                proof {
                    let after = views(kept@);
                    assert(after =~= before.push(self.names@[i as int]@));
                    if old(self).wf() {
                        let added = self.names@[i as int]@;
                        if before.contains(added) {
                            assert(head.contains(added));
                            let k = choose|k: int| 0 <= k < head.len() && head[k] == added;
                            assert(views(self.names@)[k] == added);
                            assert(views(self.names@)[i as int] == added);
                            assert(false);
                        }
                        assert forall|a: int, b: int| 0 <= a < b < after.len() implies #[trigger] after[a]
                            != #[trigger] after[b] by {
                            if b == before.len() {
                                assert(before[a] == after[a]);
                                assert(before.contains(after[a]));
                            } else {
                                assert(before[a] == after[a] && before[b] == after[b]);
                            }
                        }
                    }
                    assert forall|x: Seq<char>| x != name@ implies (after.contains(x)
                        <==> next.contains(x)) by {
                        if after.contains(x) {
                            let j = choose|j: int| 0 <= j < after.len() && after[j] == x;
                            if j < before.len() {
                                assert(before[j] == x);
                                assert(before.contains(x));
                                assert(head.contains(x));
                                let k = choose|k: int| 0 <= k < head.len() && head[k] == x;
                                assert(next[k] == x);
                            } else {
                                assert(next[i as int] == x);
                            }
                        }
                        if next.contains(x) {
                            let j = choose|j: int| 0 <= j < next.len() && next[j] == x;
                            if j < head.len() {
                                assert(head[j] == x);
                                assert(head.contains(x));
                                assert(before.contains(x));
                                let k = choose|k: int| 0 <= k < before.len() && before[k] == x;
                                assert(after[k] == x);
                            } else {
                                assert(after[before.len() as int] == x);
                            }
                        }
                    }
                }
            } else {
                proof {
                    assert forall|x: Seq<char>| x != name@ implies (before.contains(x)
                        <==> next.contains(x)) by {
                        if head.contains(x) {
                            let k = choose|k: int| 0 <= k < head.len() && head[k] == x;
                            assert(next[k] == x);
                            assert(next.contains(x));
                        }
                        if next.contains(x) {
                            let j = choose|j: int| 0 <= j < next.len() && next[j] == x;
                            assert(j < head.len());
                            assert(head[j] == x);
                            assert(head.contains(x));
                        }
                    }
                }
            }
            i = i + 1;
        }
        proof {
            assert(views(self.names@).take(self.names.len() as int) =~= views(self.names@));
            if views(kept@).contains(name@) {
                let j = choose|j: int| 0 <= j < views(kept@).len() && views(kept@)[j] == name@;
                assert(false);
            }
            assert(views(kept@).to_set() =~= old(self)@.remove(name@));
        }
        self.names = kept;
    }
}

/// How the helper binaries are brought up to date at start.
#[derive(Clone, Copy, Debug, PartialEq, Eq, Structural)]
pub enum SyncPlan {
    /// Something essential is missing: install it now, for no longer than
    /// this many seconds.
    InstallNow { timeout_secs: u64 },
    /// All is there: look for a newer extraction tool in the background.
    UpdateInBackground,
}

/// Seconds that the installation of what is missing may take at start.
pub const SYNC_TIMEOUT_SECS: u64 = 60;

/// Decides how the helper binaries are brought up to date at start.
pub fn sync_dependencies(yt_dlp_present: bool, ffmpeg_present: bool) -> (plan: SyncPlan)
    ensures
        plan == if !yt_dlp_present || !ffmpeg_present {
            SyncPlan::InstallNow { timeout_secs: SYNC_TIMEOUT_SECS }
        } else {
            SyncPlan::UpdateInBackground
        },
{
    if !yt_dlp_present || !ffmpeg_present {
        SyncPlan::InstallNow { timeout_secs: SYNC_TIMEOUT_SECS }
    } else {
        SyncPlan::UpdateInBackground
    }
}

} // verus!
