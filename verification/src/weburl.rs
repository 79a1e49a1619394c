//! Taking URLs apart and putting them together through the `url` crate.
//!
//! A URL is held as its serialization. Each function here parses that text,
//! does one thing to it, and hands back plain values. Nothing is proved of
//! what the `url` crate answers: each answer has a name, and the functions
//! that decide on it are verified for every value of it.

use vstd::prelude::*;
use crate::models::opt_view;

verus! {

/// No longer text than this is handed to a function that changes a URL.
pub const MAX_URL_CHARS: usize = 1_048_576;

/// The serialization of the URL that `Url::parse` reads from `raw`; `None`
/// where it reads none.
pub uninterp spec fn url_serialized(raw: Seq<char>) -> Option<Seq<char>>;

/// `Url::domain` of the URL that `text` parses to.
pub uninterp spec fn url_domain(text: Seq<char>) -> Option<Seq<char>>;

/// `Url::path` of the URL that `text` parses to.
pub uninterp spec fn url_path(text: Seq<char>) -> Option<Seq<char>>;

/// The name-value pairs that `Url::query_pairs` yields for the URL that
/// `text` parses to, decoded and in order.
pub uninterp spec fn url_query_pairs(text: Seq<char>) -> Option<Seq<(Seq<char>, Seq<char>)>>;

/// The serialization of the URL that `text` parses to after
/// `Url::set_host` with `host`; where the host is refused, the URL is as it was.
pub uninterp spec fn url_with_host(text: Seq<char>, host: Seq<char>) -> Option<Seq<char>>;

/// The serialization of the URL that `text` parses to after its query was
/// cleared with `Url::query_pairs_mut` and `Serializer::clear`.
pub uninterp spec fn url_with_empty_query(text: Seq<char>) -> Option<Seq<char>>;

/// The serialization of the URL that `text` parses to after
/// `Serializer::append_pair` has added a pair to its query.
pub uninterp spec fn url_with_pair(text: Seq<char>, key: Seq<char>, value: Seq<char>) -> Option<
    Seq<char>,
>;

/// The serialization of the URL that `text` parses to after its query was
/// removed with `Url::set_query(None)`.
pub uninterp spec fn url_without_query(text: Seq<char>) -> Option<Seq<char>>;

/// The views of a sequence of pairs of strings.
pub open spec fn pair_views(v: Seq<(String, String)>) -> Seq<(Seq<char>, Seq<char>)> {
    v.map_values(|p: (String, String)| (p.0@, p.1@))
}

/// The views of an optional vector of pairs.
pub open spec fn opt_pair_views(o: Option<Vec<(String, String)>>) -> Option<
    Seq<(Seq<char>, Seq<char>)>,
> {
    match o {
        Some(v) => Some(pair_views(v@)),
        None => None,
    }
}

/// Whether a text is short enough to be handed to a function that changes a URL.
pub open spec fn fits(text: Seq<char>) -> bool {
    text.len() <= MAX_URL_CHARS
}

/// Calls `Url::parse` and hands back the serialization of what it read.
/// The contract only names the answer.
#[verifier::external_body]
pub(crate) fn serialize(raw: &str) -> (text: Option<String>)
    ensures
        opt_view(text) == url_serialized(raw@),
{
    url::Url::parse(raw).ok().map(String::from)
}

/// Parses `text` and calls `Url::domain`. The contract only names the answer.
#[verifier::external_body]
pub(crate) fn domain(text: &str) -> (host: Option<String>)
    ensures
        opt_view(host) == url_domain(text@),
{
    url::Url::parse(text).ok()?.domain().map(String::from)
}

/// Parses `text` and calls `Url::path`. The contract only names the answer.
#[verifier::external_body]
pub(crate) fn path(text: &str) -> (p: Option<String>)
    ensures
        opt_view(p) == url_path(text@),
{
    Some(String::from(url::Url::parse(text).ok()?.path()))
}

/// Parses `text` and collects what `Url::query_pairs` yields. The contract
/// only names the answer.
#[verifier::external_body]
pub(crate) fn query_pairs(text: &str) -> (pairs: Option<Vec<(String, String)>>)
    ensures
        opt_pair_views(pairs) == url_query_pairs(text@),
{
    let parsed = url::Url::parse(text).ok()?;
    Some(parsed.query_pairs().map(|(k, v)| (k.into_owned(), v.into_owned())).collect())
}

/// Parses `text`, calls `Url::set_host` with `host`, and hands back the
/// serialization; a refused host leaves the URL as it was. The lengths are
/// bounded so that the result stays far below the 4 GB that the crate can
/// hold. The contract only names the answer.
#[verifier::external_body]
pub(crate) fn with_host(text: &str, host: &str) -> (out: Option<String>)
    requires
        fits(text@),
        fits(host@),
    ensures
        opt_view(out) == url_with_host(text@, host@),
{
    let mut parsed = url::Url::parse(text).ok()?;
    let _ = parsed.set_host(Some(host));
    Some(String::from(parsed))
}

/// Parses `text`, clears the query through `Url::query_pairs_mut`, and hands
/// back the serialization. The length is bounded so that the result stays
/// far below the 4 GB that the crate can hold. The contract only names the answer.
#[verifier::external_body]
pub(crate) fn with_empty_query(text: &str) -> (out: Option<String>)
    requires
        fits(text@),
    ensures
        opt_view(out) == url_with_empty_query(text@),
{
    let mut parsed = url::Url::parse(text).ok()?;
    parsed.query_pairs_mut().clear();
    Some(String::from(parsed))
}

/// Parses `text`, adds a pair to the query with `Serializer::append_pair`,
/// and hands back the serialization. The lengths are bounded so that the
/// result stays far below the 4 GB that the crate can hold. The contract
/// only names the answer.
#[verifier::external_body]
pub(crate) fn with_pair(text: &str, key: &str, value: &str) -> (out: Option<String>)
    requires
        fits(text@),
        fits(key@),
        fits(value@),
    ensures
        opt_view(out) == url_with_pair(text@, key@, value@),
{
    let mut parsed = url::Url::parse(text).ok()?;
    parsed.query_pairs_mut().append_pair(key, value);
    Some(String::from(parsed))
}

/// Parses `text`, removes the query with `Url::set_query(None)`, and hands
/// back the serialization. The contract only names the answer.
#[verifier::external_body]
pub(crate) fn without_query(text: &str) -> (out: Option<String>)
    ensures
        opt_view(out) == url_without_query(text@),
{
    let mut parsed = url::Url::parse(text).ok()?;
    parsed.set_query(None);
    Some(String::from(parsed))
}

/// The URL `text` with its host replaced, or as it was where that cannot be done.
pub open spec fn host_replaced(text: Seq<char>, host: Seq<char>) -> Seq<char> {
    if fits(text) && fits(host) && url_with_host(text, host).is_some() {
        url_with_host(text, host).unwrap()
    } else {
        text
    }
}

/// The URL `text` with its query emptied, or as it was where that cannot be done.
pub open spec fn query_emptied(text: Seq<char>) -> Seq<char> {
    if fits(text) && url_with_empty_query(text).is_some() {
        url_with_empty_query(text).unwrap()
    } else {
        text
    }
}

/// The URL `text` without a query, or as it was where that cannot be done.
pub open spec fn query_removed(text: Seq<char>) -> Seq<char> {
    match url_without_query(text) {
        Some(bare) => bare,
        None => text,
    }
}

/// The URL `text` with one more pair in its query, or as it was where that
/// cannot be done.
pub open spec fn pair_appended(text: Seq<char>, key: Seq<char>, value: Seq<char>) -> Seq<char> {
    if fits(text) && fits(key) && fits(value) && url_with_pair(text, key, value).is_some() {
        url_with_pair(text, key, value).unwrap()
    } else {
        text
    }
}

fn is_short(text: &str) -> (r: bool)
    ensures
        r == fits(text@),
{
    text.unicode_len() <= MAX_URL_CHARS
}

/// Replaces the host of the URL `text`, where that can be done.
pub fn replace_host(text: &str, host: &str) -> (out: String)
    ensures
        out@ == host_replaced(text@, host@),
{
    if is_short(text) && is_short(host) {
        match with_host(text, host) {
            Some(changed) => changed,
            None => text.to_owned(),
        }
    } else {
        text.to_owned()
    }
}

/// Empties the query of the URL `text`, where that can be done.
pub fn empty_query(text: &str) -> (out: String)
    ensures
        out@ == query_emptied(text@),
{
    if is_short(text) {
        match with_empty_query(text) {
            Some(changed) => changed,
            None => text.to_owned(),
        }
    } else {
        text.to_owned()
    }
}

/// Removes the query of the URL `text`, where that can be done.
pub fn remove_query(text: &str) -> (out: String)
    ensures
        out@ == query_removed(text@),
{
    match without_query(text) {
        Some(changed) => changed,
        None => text.to_owned(),
    }
}

/// Adds a pair to the query of the URL `text`, where that can be done.
pub fn append_pair(text: &str, key: &str, value: &str) -> (out: String)
    ensures
        out@ == pair_appended(text@, key@, value@),
{
    if is_short(text) && is_short(key) && is_short(value) {
        match with_pair(text, key, value) {
            Some(changed) => changed,
            None => text.to_owned(),
        }
    } else {
        text.to_owned()
    }
}

} // verus!
