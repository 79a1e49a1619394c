//! The history of downloaded URLs: a set of canonical forms in memory,
//! beside an append-only log of the URLs as they were given.
//!
//! The log is a file that one writer task owns. The functions here decide:
//! which line is written, and what the set holds once the write went through.

use vstd::prelude::*;
use crate::models::opt_view;
use crate::text::{
    chars_of, contains, contains_text, copy_range, find_last, has_prefix, index_of_char, occurs_at,
    position, same_text, starts_with, string_of, trim, trim_end_matches, trim_start_matches,
    trimmed, views, without_leading, without_trailing, lemma_trimmed_idempotent,
};
use crate::weburl::{
    append_pair, domain, empty_query, pair_appended, pair_views, path, query_emptied,
    query_removed, remove_query, query_pairs,
    replace_host, host_replaced, serialize, url_domain, url_path, url_query_pairs, url_serialized,
};

verus! {

/// What is done to the host of a URL before it is compared.
#[derive(Debug)]
pub enum HostRewrite {
    Keep,
    /// The URL is a short link: it stands for the watch page of this video.
    WatchPage(String),
    /// The host is replaced by this one.
    SetHost(String),
}

pub ghost enum HostRewriteView {
    Keep,
    WatchPage(Seq<char>),
    SetHost(Seq<char>),
}

impl View for HostRewrite {
    type V = HostRewriteView;

    open spec fn view(&self) -> HostRewriteView {
        match *self {
            HostRewrite::Keep => HostRewriteView::Keep,
            HostRewrite::WatchPage(url) => HostRewriteView::WatchPage(url@),
            HostRewrite::SetHost(host) => HostRewriteView::SetHost(host@),
        }
    }
}

/// The rewrite that a domain and a path call for: a short link with a
/// video in its path becomes the watch page of that video, the mobile host
/// becomes the plain one, and a leading `www.` goes.
pub open spec fn host_rewrite_of(domain: Option<Seq<char>>, path: Seq<char>) -> HostRewriteView {
    match domain {
        Some(host) => if host == "youtu.be"@ {
            if without_leading(path, '/').len() > 0 {
                HostRewriteView::WatchPage(
                    "https://youtube.com/watch?v="@ + without_leading(path, '/'),
                )
            } else {
                HostRewriteView::Keep
            }
        } else if host == "m.youtube.com"@ {
            HostRewriteView::SetHost("youtube.com"@)
        } else if has_prefix(host, "www."@) {
            HostRewriteView::SetHost(host.skip(4))
        } else {
            HostRewriteView::Keep
        },
        None => HostRewriteView::Keep,
    }
}

/// Decides the rewrite that a domain and a path call for.
pub fn host_rewrite(domain: &Option<String>, path: &str) -> (r: HostRewrite)
    ensures
        r@ == host_rewrite_of(opt_view(*domain), path@),
{
    match domain {
        Some(host) => {
            let h = chars_of(host.as_str());
            let www = chars_of("www.");
            proof {
                reveal_strlit("www.");
            }
            if same_text(host.as_str(), "youtu.be") {
                let p = chars_of(path);
                let id = trim_start_matches(p.as_slice(), '/');
                if id.len() > 0 {
                    let mut url = chars_of("https://youtube.com/watch?v=");
                    crate::text::push_all(&mut url, id.as_slice());
                    HostRewrite::WatchPage(string_of(url.as_slice()))
                } else {
                    HostRewrite::Keep
                }
            } else if same_text(host.as_str(), "m.youtube.com") {
                HostRewrite::SetHost("youtube.com".to_owned())
            } else if starts_with(h.as_slice(), www.as_slice()) {
                let rest = copy_range(h.as_slice(), 4, h.len());
                assert(rest@ =~= host@.skip(4));
                HostRewrite::SetHost(string_of(rest.as_slice()))
            } else {
                HostRewrite::Keep
            }
        },
        None => HostRewrite::Keep,
    }
}

/// The URL `text` after the rewrite of its host.
pub open spec fn host_rewritten(text: Seq<char>) -> Seq<char> {
    match host_rewrite_of(
        url_domain(text),
        match url_path(text) {
            Some(p) => p,
            None => Seq::empty(),
        },
    ) {
        HostRewriteView::Keep => text,
        HostRewriteView::WatchPage(page) => match url_serialized(page) {
            Some(parsed) => parsed,
            None => text,
        },
        HostRewriteView::SetHost(host) => host_replaced(text, host),
    }
}

fn rewrite_host(text: &str) -> (out: String)
    ensures
        out@ == host_rewritten(text@),
{
    let host = domain(text);
    let p = match path(text) {
        Some(p) => p,
        None => String::new(),
    };
    match host_rewrite(&host, p.as_str()) {
        HostRewrite::Keep => text.to_owned(),
        HostRewrite::WatchPage(page) => match serialize(page.as_str()) {
            Some(parsed) => parsed,
            None => text.to_owned(),
        },
        HostRewrite::SetHost(new_host) => replace_host(text, new_host.as_str()),
    }
}

/// Whether a domain belongs to the video site whose query parameters are
/// kept by an allow-list.
pub open spec fn is_video_site(domain: Option<Seq<char>>) -> bool {
    match domain {
        Some(host) => contains_text(host, "youtube"@),
        None => false,
    }
}

/// Whether a query parameter survives: on the video site only the ones that
/// name a video, a list or an item; elsewhere all but the ones that track.
pub open spec fn keeps_parameter(video_site: bool, name: Seq<char>) -> bool {
    if video_site {
        name == "v"@ || name == "list"@ || name == "id"@
    } else {
        !(name == "utm_source"@ || name == "utm_medium"@ || name == "utm_campaign"@ || name
            == "si"@ || name == "feature"@ || name == "ab_channel"@)
    }
}

/// Decides whether a query parameter survives.
pub fn keep_parameter(video_site: bool, name: &str) -> (keep: bool)
    ensures
        keep == keeps_parameter(video_site, name@),
{
    if video_site {
        same_text(name, "v") || same_text(name, "list") || same_text(name, "id")
    } else {
        !(same_text(name, "utm_source") || same_text(name, "utm_medium") || same_text(
            name,
            "utm_campaign",
        ) || same_text(name, "si") || same_text(name, "feature") || same_text(name, "ab_channel"))
    }
}

/// The pairs whose parameter survives, in order.
pub open spec fn kept_pairs(pairs: Seq<(Seq<char>, Seq<char>)>, video_site: bool) -> Seq<
    (Seq<char>, Seq<char>),
>
    decreases pairs.len(),
{
    if pairs.len() == 0 {
        Seq::empty()
    } else if keeps_parameter(video_site, pairs.last().0) {
        kept_pairs(pairs.drop_last(), video_site).push(pairs.last())
    } else {
        kept_pairs(pairs.drop_last(), video_site)
    }
}

/// The URL `text` with `pairs` added to its query, in order.
pub open spec fn with_pairs(text: Seq<char>, pairs: Seq<(Seq<char>, Seq<char>)>) -> Seq<char>
    decreases pairs.len(),
{
    if pairs.len() == 0 {
        text
    } else {
        pair_appended(with_pairs(text, pairs.drop_last()), pairs.last().0, pairs.last().1)
    }
}

/// The URL `text` with its query reduced to the pairs that are kept: no
/// query at all where none is kept, else a query of exactly those pairs.
pub open spec fn with_query_of(text: Seq<char>, kept: Seq<(Seq<char>, Seq<char>)>) -> Seq<char> {
    if kept.len() == 0 {
        query_removed(text)
    } else {
        with_pairs(query_emptied(text), kept)
    }
}

/// The URL `text` with its query reduced to the parameters that survive.
/// A URL of which no parameter survives has no query, not an empty one.
pub open spec fn query_filtered(text: Seq<char>) -> Seq<char> {
    with_query_of(
        text,
        kept_pairs(
            match url_query_pairs(text) {
                Some(pairs) => pairs,
                None => Seq::empty(),
            },
            is_video_site(url_domain(text)),
        ),
    )
}

/// Sorts out the pairs whose parameter survives.
pub fn keep_pairs(pairs: &Vec<(String, String)>, video_site: bool) -> (kept: Vec<(String, String)>)
    ensures
        pair_views(kept@) == kept_pairs(pair_views(pairs@), video_site),
{
    let mut kept: Vec<(String, String)> = Vec::new();
    let mut i: usize = 0;
    assert(pair_views(kept@) =~= Seq::empty());
    while i < pairs.len()
        invariant
            i <= pairs.len(),
            pair_views(kept@) == kept_pairs(pair_views(pairs@).take(i as int), video_site),
        decreases pairs.len() - i,
    {
        let ghost done = pair_views(kept@);
        proof {
            assert(pair_views(pairs@).take(i + 1).drop_last() =~= pair_views(pairs@).take(
                i as int,
            ));
        }
        if keep_parameter(video_site, pairs[i].0.as_str()) {
            kept.push((pairs[i].0.clone(), pairs[i].1.clone()));
            assert(pair_views(kept@) =~= done.push(pair_views(pairs@)[i as int]));
        }
        i = i + 1;
    }
    assert(pair_views(pairs@).take(pairs.len() as int) =~= pair_views(pairs@));
    kept
}

/// Gives the URL `text` a query of exactly the pairs `kept`, and none
/// where there are none.
pub fn set_query_pairs(text: &str, kept: &Vec<(String, String)>) -> (out: String)
    ensures
        out@ == with_query_of(text@, pair_views(kept@)),
{
    if kept.len() == 0 {
        return remove_query(text);
    }
    let mut out = empty_query(text);
    let mut i: usize = 0;
    while i < kept.len()
        invariant
            i <= kept.len(),
            out@ == with_pairs(query_emptied(text@), pair_views(kept@).take(i as int)),
        decreases kept.len() - i,
    {
        proof {
            assert(pair_views(kept@).take(i + 1).drop_last() =~= pair_views(kept@).take(i as int));
        }
        out = append_pair(out.as_str(), kept[i].0.as_str(), kept[i].1.as_str());
        i = i + 1;
    }
    assert(pair_views(kept@).take(kept.len() as int) =~= pair_views(kept@));
    out
}

fn filter_query(text: &str) -> (out: String)
    ensures
        out@ == query_filtered(text@),
{
    let pairs = match query_pairs(text) {
        Some(pairs) => pairs,
        None => Vec::new(),
    };
    let video_site = match domain(text) {
        Some(host) => {
            let h = chars_of(host.as_str());
            let word = chars_of("youtube");
            contains(h.as_slice(), word.as_slice())
        },
        None => false,
    };
    let kept = keep_pairs(&pairs, video_site);
    set_query_pairs(text, &kept)
}

/// What follows the last `://` of a text; the whole text where it has none.
pub open spec fn without_scheme(text: Seq<char>) -> Seq<char> {
    if contains_text(text, "://"@) {
        text.skip(last_scheme_mark(text) + 3)
    } else {
        text
    }
}

/// The offset of the last `://` of a text that has one.
pub open spec fn last_scheme_mark(text: Seq<char>) -> int {
    choose|i: int| occurs_at(text, "://"@, i) && forall|j: int| i < j ==> !occurs_at(text, "://"@, j)
}

/// A serialized URL as it is compared: without its scheme and without
/// trailing slashes.
pub open spec fn scheme_stripped(text: Seq<char>) -> Seq<char> {
    without_trailing(without_scheme(text), '/')
}

/// Strips the scheme and the trailing slashes off a serialized URL.
pub fn strip_scheme(text: &str) -> (out: String)
    ensures
        out@ == scheme_stripped(text@),
{
    let chars = chars_of(text);
    let mark = chars_of("://");
    proof {
        reveal_strlit("://");
    }
    let rest = match find_last(chars.as_slice(), mark.as_slice()) {
        Some(i) => {
            proof {
                let k = last_scheme_mark(text@);
                assert(occurs_at(text@, "://"@, i as int));
                if k < i {
                    assert(!occurs_at(text@, "://"@, i as int));
                }
                if i < k {
                    assert(!occurs_at(text@, "://"@, k));
                }
                assert("://"@.len() == 3);
                assert(i + 3 <= chars.len());
            }
            let tail = copy_range(chars.as_slice(), i + 3, chars.len());
            assert(tail@ =~= text@.skip(i + 3));
            tail
        },
        None => chars,
    };
    let kept = trim_end_matches(rest.as_slice(), '/');
    string_of(kept.as_slice())
}

/// The canonical form of a URL: the identity under which it is known. A
/// text that is no URL stands for itself, trimmed. A URL has its host
/// rewritten and its query filtered, and loses its scheme and its trailing
/// slashes.
pub open spec fn normalized(raw: Seq<char>) -> Seq<char> {
    match url_serialized(raw) {
        Some(text) => scheme_stripped(query_filtered(host_rewritten(text))),
        None => trimmed(raw),
    }
}

/// How many messages may wait for the task that owns the log.
pub const MAILBOX_CAPACITY: usize = 100;

/// A message to the task that owns the log.
#[derive(Debug)]
pub enum HistoryMessage {
    /// Append this URL, as given.
    Add(String),
    /// Replace the whole log by this content.
    Replace(String),
    Clear,
    /// Read the whole log.
    Get,
}

pub ghost enum HistoryMessageView {
    Add(Seq<char>),
    Replace(Seq<char>),
    Clear,
    Get,
}

impl View for HistoryMessage {
    type V = HistoryMessageView;

    open spec fn view(&self) -> HistoryMessageView {
        match *self {
            HistoryMessage::Add(url) => HistoryMessageView::Add(url@),
            HistoryMessage::Replace(content) => HistoryMessageView::Replace(content@),
            HistoryMessage::Clear => HistoryMessageView::Clear,
            HistoryMessage::Get => HistoryMessageView::Get,
        }
    }
}

/// What the owner of the log does to the file.
#[derive(Debug)]
pub enum FileAction {
    /// Append this text.
    Append(String),
    /// Truncate the file and write this text.
    Overwrite(String),
    Truncate,
    Read,
}

pub ghost enum FileActionView {
    Append(Seq<char>),
    Overwrite(Seq<char>),
    Truncate,
    Read,
}

impl View for FileAction {
    type V = FileActionView;

    open spec fn view(&self) -> FileActionView {
        match *self {
            FileAction::Append(text) => FileActionView::Append(text@),
            FileAction::Overwrite(text) => FileActionView::Overwrite(text@),
            FileAction::Truncate => FileActionView::Truncate,
            FileAction::Read => FileActionView::Read,
        }
    }
}

/// What a message does to the file.
pub open spec fn file_action_of(msg: HistoryMessageView) -> FileActionView {
    match msg {
        HistoryMessageView::Add(url) => FileActionView::Append(url + "\n"@),
        HistoryMessageView::Replace(content) => FileActionView::Overwrite(content),
        HistoryMessageView::Clear => FileActionView::Truncate,
        HistoryMessageView::Get => FileActionView::Read,
    }
}

/// The lines of a text: it is cut at each line feed, and a carriage return
/// before a line feed goes with it. A last line needs no line feed.
pub open spec fn lines_of(text: Seq<char>) -> Seq<Seq<char>>
    decreases text.len(),
{
    if text.len() == 0 {
        Seq::empty()
    } else {
        let k = index_of_char(text, '\n');
        if 0 <= k < text.len() {
            seq![without_return(text.take(k))] + lines_of(text.skip(k + 1))
        } else {
            seq![text]
        }
    }
}

/// A line without the carriage return at its end, if it has one.
pub open spec fn without_return(line: Seq<char>) -> Seq<char> {
    if line.len() > 0 && line.last() == '\r' {
        line.drop_last()
    } else {
        line
    }
}

/// The canonical forms of the lines that are not blank.
pub open spec fn known_forms(lines: Seq<Seq<char>>) -> Set<Seq<char>>
    decreases lines.len(),
{
    if lines.len() == 0 {
        Set::empty()
    } else if trimmed(lines.last()).len() > 0 {
        known_forms(lines.drop_last()).insert(normalized(lines.last()))
    } else {
        known_forms(lines.drop_last())
    }
}

/// What the set holds once the file operation of a message went through.
pub open spec fn known_after(known: Set<Seq<char>>, msg: HistoryMessageView) -> Set<Seq<char>> {
    match msg {
        HistoryMessageView::Add(url) => known.insert(normalized(url)),
        HistoryMessageView::Replace(content) => known_forms(lines_of(content)),
        HistoryMessageView::Clear => Set::empty(),
        HistoryMessageView::Get => known,
    }
}

/// Cuts a text into its lines.
pub fn split_lines(text: &str) -> (lines: Vec<String>)
    ensures
        views(lines@) == lines_of(text@),
{
    let chars = chars_of(text);
    let mut lines: Vec<String> = Vec::new();
    let mut from: usize = 0;
    assert(chars@.skip(0) =~= chars@);
    assert(views(lines@) =~= Seq::empty());
    while from < chars.len()
        invariant
            from <= chars.len(),
            chars@ == text@,
            views(lines@) + lines_of(chars@.skip(from as int)) == lines_of(text@),
        decreases chars.len() - from,
    {
        let ghost rest = chars@.skip(from as int);
        let ghost done = views(lines@);
        let tail = copy_range(chars.as_slice(), from, chars.len());
        assert(tail@ =~= rest);
        let k = position(tail.as_slice(), '\n');
        if k >= tail.len() {
            lines.push(string_of(tail.as_slice()));
            assert(views(lines@) =~= done + seq![rest]);
            from = chars.len();
            assert(lines_of(chars@.skip(from as int)) =~= Seq::empty());
            assert(done + seq![rest] + Seq::empty() =~= done + lines_of(rest));
        } else {
            let mut end: usize = k;
            if k > 0 && tail[k - 1] == '\r' {
                end = k - 1;
            }
            let line = copy_range(tail.as_slice(), 0, end);
            assert(line@ =~= without_return(rest.take(k as int)));
            lines.push(string_of(line.as_slice()));
            assert(views(lines@) =~= done + seq![line@]);
            assert(rest.skip(k + 1) =~= chars@.skip(from + k + 1));
            from = from + k + 1;
            assert(done + seq![line@] + lines_of(chars@.skip(from as int)) =~= done + lines_of(
                rest,
            ));
        }
    }
    assert(lines_of(chars@.skip(from as int)) =~= Seq::empty());
    assert(views(lines@) + Seq::empty() =~= views(lines@));
    lines
}

/// The set of canonical forms that stand for the URLs of the log.
#[derive(Debug)]
pub struct HistoryManager {
    cache: Vec<String>,
}

impl View for HistoryManager {
    type V = Set<Seq<char>>;

    closed spec fn view(&self) -> Set<Seq<char>> {
        views(self.cache@).to_set()
    }
}

/// Whether no text is held twice.
pub open spec fn all_distinct(texts: Seq<Seq<char>>) -> bool {
    forall|i: int, j: int| 0 <= i < j < texts.len() ==> #[trigger] texts[i] != #[trigger] texts[j]
}

fn position_of(list: &Vec<String>, text: &str) -> (k: usize)
    ensures
        k <= list.len(),
        k < list.len() ==> list@[k as int]@ == text@,
        k == list.len() ==> !views(list@).contains(text@),
{
    let mut k: usize = 0;
    while k < list.len()
        invariant
            k <= list.len(),
            forall|j: int| 0 <= j < k ==> #[trigger] views(list@)[j] != text@,
        decreases list.len() - k,
    {
        if same_text(list[k].as_str(), text) {
            return k;
        }
        k = k + 1;
    }
    k
}

impl HistoryManager {
    /// No canonical form is held twice.
    pub closed spec fn wf(&self) -> bool {
        all_distinct(views(self.cache@))
    }

    /// The history of a log with the given lines: the canonical forms of
    /// those that are not blank.
    pub fn new(lines: &Vec<String>) -> (history: Self)
        ensures
            history.wf(),
            history@ == known_forms(views(lines@)),
    {
        let mut history = HistoryManager { cache: Vec::new() };
        assert(history@ =~= Set::empty());
        let mut i: usize = 0;
        while i < lines.len()
            invariant
                i <= lines.len(),
                history.wf(),
                history@ == known_forms(views(lines@).take(i as int)),
            decreases lines.len() - i,
        {
            proof {
                assert(views(lines@).take(i + 1).drop_last() =~= views(lines@).take(i as int));
            }
            let chars = chars_of(lines[i].as_str());
            let kept = trim(chars.as_slice());
            if kept.len() > 0 {
                let form = Self::normalize_url(lines[i].as_str());
                history.insert(form);
            }
            i = i + 1;
        }
        assert(views(lines@).take(lines.len() as int) =~= views(lines@));
        history
    }

    fn insert(&mut self, form: String)
        ensures
            final(self)@ == old(self)@.insert(form@),
            old(self).wf() ==> final(self).wf(),
    {
        let k = position_of(&self.cache, form.as_str());
        if k == self.cache.len() {
            self.cache.push(form);
            assert(views(self.cache@) =~= views(old(self).cache@).push(form@));
            assert(self@ =~= old(self)@.insert(form@)) by {
                assert forall|x: Seq<char>| self@.contains(x) <==> old(self)@.insert(
                    form@,
                ).contains(x) by {
                    if self@.contains(x) {
                        let j = choose|j: int|
                            0 <= j < views(self.cache@).len() && views(self.cache@)[j] == x;
                        if j < old(self).cache@.len() {
                            assert(views(old(self).cache@)[j] == x);
                        }
                    }
                    if old(self)@.contains(x) {
                        let j = choose|j: int|
                            0 <= j < views(old(self).cache@).len() && views(old(self).cache@)[j]
                                == x;
                        assert(views(self.cache@)[j] == x);
                    }
                    if x == form@ {
                        assert(views(self.cache@)[self.cache@.len() - 1] == x);
                    }
                }
            }
        } else {
            assert(views(self.cache@)[k as int] == form@);
            assert(self@ =~= old(self)@.insert(form@));
        }
    }

    /// The canonical form of `raw_url`.
    pub fn normalize_url(raw_url: &str) -> (canonical: String)
        ensures
            canonical@ == normalized(raw_url@),
    {
        match serialize(raw_url) {
            Some(text) => {
                let rewritten = rewrite_host(text.as_str());
                let filtered = filter_query(rewritten.as_str());
                strip_scheme(filtered.as_str())
            },
            None => {
                let chars = chars_of(raw_url);
                let kept = trim(chars.as_slice());
                string_of(kept.as_slice())
            },
        }
    }

    /// Whether the canonical form of `url` is known.
    pub fn is_known(&self, url: &str) -> (known: bool)
        ensures
            known == self@.contains(normalized(url@)),
    {
        let form = Self::normalize_url(url);
        let k = position_of(&self.cache, form.as_str());
        proof {
            if k < self.cache.len() {
                assert(views(self.cache@)[k as int] == form@);
            }
        }
        k < self.cache.len()
    }

    /// What is sent to the owner of the log for `url`: nothing where its
    /// canonical form is known, else the request to append it as given.
    pub fn add(&self, url: &str) -> (msg: Option<HistoryMessage>)
        ensures
            msg.is_none() <==> self@.contains(normalized(url@)),
            msg.is_some() ==> msg.unwrap()@ == HistoryMessageView::Add(url@),
    {
        if self.is_known(url) {
            None
        } else {
            Some(HistoryMessage::Add(url.to_owned()))
        }
    }

    /// What a message does to the file.
    pub fn file_action(msg: &HistoryMessage) -> (action: FileAction)
        ensures
            action@ == file_action_of(msg@),
    {
        match msg {
            HistoryMessage::Add(url) => FileAction::Append(crate::text::concat(url.as_str(), "\n")),
            HistoryMessage::Replace(content) => FileAction::Overwrite(content.clone()),
            HistoryMessage::Clear => FileAction::Truncate,
            HistoryMessage::Get => FileAction::Read,
        }
    }

    /// Takes in a message whose file operation went through.
    pub fn commit(&mut self, msg: &HistoryMessage)
        ensures
            final(self)@ == known_after(old(self)@, msg@),
            old(self).wf() ==> final(self).wf(),
    {
        match msg {
            HistoryMessage::Add(url) => {
                let form = Self::normalize_url(url.as_str());
                self.insert(form);
            },
            HistoryMessage::Replace(content) => {
                let lines = split_lines(content.as_str());
                let rebuilt = HistoryManager::new(&lines);
                self.cache = rebuilt.cache;
            },
            HistoryMessage::Clear => {
                self.cache = Vec::new();
                assert(self@ =~= Set::empty());
            },
            HistoryMessage::Get => {},
        }
    }
}


/// The set and the log after `url` was added and the write went through:
/// a URL whose canonical form is known changes nothing, any other is
/// appended to the log as given and known from then on.
pub open spec fn after_add(known: Set<Seq<char>>, log: Seq<Seq<char>>, url: Seq<char>) -> (
    Set<Seq<char>>,
    Seq<Seq<char>>,
) {
    if known.contains(normalized(url)) {
        (known, log)
    } else {
        (known.insert(normalized(url)), log.push(url))
    }
}

/// The set and the log after the URLs were added one after the other.
pub open spec fn after_adds(known: Set<Seq<char>>, log: Seq<Seq<char>>, urls: Seq<Seq<char>>) -> (
    Set<Seq<char>>,
    Seq<Seq<char>>,
)
    decreases urls.len(),
{
    if urls.len() == 0 {
        (known, log)
    } else {
        let before = after_adds(known, log, urls.drop_last());
        after_add(before.0, before.1, urls.last())
    }
}

/// No two lines of the log have the same canonical form.
pub open spec fn is_deduplicated(log: Seq<Seq<char>>) -> bool {
    forall|i: int, j: int|
        0 <= i < j < log.len() ==> normalized(#[trigger] log[i]) != normalized(#[trigger] log[j])
}

/// Whether one of the URLs has the canonical form `form`.
pub open spec fn has_form(urls: Seq<Seq<char>>, form: Seq<char>) -> bool {
    exists|i: int| 0 <= i < urls.len() && normalized(#[trigger] urls[i]) == form
}

/// The set holds the canonical forms of the lines of the log and no others.
pub open spec fn set_matches_log(known: Set<Seq<char>>, log: Seq<Seq<char>>) -> bool {
    forall|form: Seq<char>| known.contains(form) <==> has_form(log, form)
}

proof fn lemma_add_keeps_dedup(known: Set<Seq<char>>, log: Seq<Seq<char>>, url: Seq<char>)
    requires
        is_deduplicated(log),
        set_matches_log(known, log),
    ensures
        is_deduplicated(after_add(known, log, url).1),
        set_matches_log(after_add(known, log, url).0, after_add(known, log, url).1),
{
    let (k2, l2) = after_add(known, log, url);
    if !known.contains(normalized(url)) {
        assert forall|i: int, j: int| 0 <= i < j < l2.len() implies normalized(#[trigger] l2[i])
            != normalized(#[trigger] l2[j]) by {
            if j == log.len() {
                assert(l2[i] == log[i]);
                if normalized(log[i]) == normalized(url) {
                    assert(has_form(log, normalized(url)));
                }
            } else {
                assert(l2[i] == log[i] && l2[j] == log[j]);
            }
        }
        assert forall|form: Seq<char>| k2.contains(form) <==> has_form(l2, form) by {
            if has_form(l2, form) {
                let i = choose|i: int| 0 <= i < l2.len() && normalized(#[trigger] l2[i]) == form;
                if i < log.len() {
                    assert(l2[i] == log[i]);
                    assert(has_form(log, form));
                }
            }
            if k2.contains(form) {
                if form == normalized(url) {
                    assert(normalized(l2[log.len() as int]) == form);
                } else {
                    assert(has_form(log, form));
                    let i = choose|i: int|
                        0 <= i < log.len() && normalized(#[trigger] log[i]) == form;
                    assert(l2[i] == log[i]);
                }
            }
        }
    }
}

/// History dedup. Let URLs be added one after the other to an empty
/// history, each write going through before the next add. Then the log
/// holds at most one line for each canonical form, and a URL is known
/// exactly if one of the URLs added has its canonical form.
pub proof fn history_dedup(urls: Seq<Seq<char>>)
    ensures
        is_deduplicated(after_adds(Set::empty(), Seq::empty(), urls).1),
        set_matches_log(
            after_adds(Set::empty(), Seq::empty(), urls).0,
            after_adds(Set::empty(), Seq::empty(), urls).1,
        ),
        forall|url: Seq<char>|
            after_adds(Set::empty(), Seq::empty(), urls).0.contains(#[trigger] normalized(url))
                <==> has_form(urls, normalized(url)),
    decreases urls.len(),
{
    let empty_set = Set::<Seq<char>>::empty();
    let empty_log = Seq::<Seq<char>>::empty();
    if urls.len() == 0 {
        assert(set_matches_log(empty_set, empty_log));
    } else {
        let rest = urls.drop_last();
        history_dedup(rest);
        let before = after_adds(empty_set, empty_log, rest);
        let after = after_adds(empty_set, empty_log, urls);
        lemma_add_keeps_dedup(before.0, before.1, urls.last());
        assert forall|url: Seq<char>| after.0.contains(#[trigger] normalized(url)) <==> has_form(
            urls,
            normalized(url),
        ) by {
            let form = normalized(url);
            if has_form(urls, form) {
                let i = choose|i: int| 0 <= i < urls.len() && normalized(#[trigger] urls[i]) == form;
                if i < rest.len() {
                    assert(rest[i] == urls[i]);
                    assert(has_form(rest, form));
                }
            }
            if after.0.contains(form) {
                if before.0.contains(form) {
                    assert(has_form(rest, form));
                    let i = choose|i: int|
                        0 <= i < rest.len() && normalized(#[trigger] rest[i]) == form;
                    assert(urls[i] == rest[i]);
                } else {
                    assert(normalized(urls[urls.len() - 1]) == form);
                }
            }
        }
    }
}

/// What follows the last `://` of a text holds no `://`.
pub proof fn lemma_without_scheme_has_no_mark(text: Seq<char>)
    ensures
        !contains_text(without_scheme(text), "://"@),
{
    reveal_strlit("://");
    let mark = "://"@;
    let rest = without_scheme(text);
    if contains_text(text, mark) {
        let i = last_scheme_mark(text);
        lemma_last_mark_exists(text, text.len() as int);
        if contains_text(rest, mark) {
            let j = choose|j: int| occurs_at(rest, mark, j);
            assert(rest.subrange(j, j + 3) =~= text.subrange(i + 3 + j, i + 3 + j + 3));
            assert(occurs_at(text, mark, i + 3 + j));
        }
    }
}

/// A text that holds `://` below `bound` has a last place below `bound`
/// at which it holds it.
proof fn lemma_last_mark_exists(text: Seq<char>, bound: int)
    requires
        exists|i: int| i <= bound && occurs_at(text, "://"@, i),
    ensures
        exists|i: int|
            occurs_at(text, "://"@, i) && i <= bound && forall|j: int|
                i < j <= bound ==> !occurs_at(text, "://"@, j),
    decreases bound,
{
    let mark = "://"@;
    let w = choose|i: int| i <= bound && occurs_at(text, mark, i);
    if occurs_at(text, mark, bound) {
    } else {
        assert(w <= bound - 1);
        lemma_last_mark_exists(text, bound - 1);
        let i = choose|i: int|
            occurs_at(text, mark, i) && i <= bound - 1 && forall|j: int|
                i < j <= bound - 1 ==> !occurs_at(text, mark, j);
        assert(forall|j: int| i < j <= bound ==> !occurs_at(text, mark, j));
    }
}

/// Stripping the scheme and the trailing slashes twice is stripping them once.
pub proof fn scheme_stripped_again(text: Seq<char>)
    ensures
        scheme_stripped(scheme_stripped(text)) == scheme_stripped(text),
{
    let a = without_scheme(text);
    let b = crate::text::without_trailing(a, '/');
    lemma_without_scheme_has_no_mark(text);
    crate::text::lemma_without_trailing_is_prefix(a, '/');
    crate::text::lemma_prefix_holds_less(a, "://"@, b.len() as int);
    crate::text::lemma_without_trailing_idempotent(a, '/');
}

/// Normalisation is idempotent wherever the canonical form is not itself
/// read as a URL and has no white space at its ends: normalising it again
/// gives it back.
pub proof fn normalized_again(raw: Seq<char>)
    requires
        url_serialized(normalized(raw)).is_none(),
        trimmed(normalized(raw)) == normalized(raw),
    ensures
        normalized(normalized(raw)) == normalized(raw),
{
}

/// Normalisation is idempotent on every text that is no URL, neither as
/// given nor trimmed.
pub proof fn normalized_again_off_urls(raw: Seq<char>)
    requires
        url_serialized(raw).is_none(),
        url_serialized(trimmed(raw)).is_none(),
    ensures
        normalized(normalized(raw)) == normalized(raw),
{
    lemma_trimmed_idempotent(raw);
}

} // verus!
