//! The adapter for the multi-connection downloader: the command line that
//! it is started with, and what its status lines say.

use vstd::prelude::*;
use crate::pattern::{captures, captures_view, regex_captures};
use crate::stream::{file_name, file_name_of, is_separator, last_component, GIB, KIB, MIB};
use crate::text::{
    all_digits, chars_of, concat, copy_range, digits_value, ends_with, has_suffix, index_of_char,
    is_ascii_digit, is_digit, parse_digits, position, push_signed, push_str, push_text,
    signed_decimal, string_of, trim, trimmed, views,
};
use crate::transport::{TransportError, TransportErrorView};

verus! {

/// Matches a status line that gives the size so far, the total size, the
/// percentage and the rate.
pub open spec fn status_pattern() -> Seq<char> {
    "(?P<current>[\\d.]+[A-Za-z]+)/(?P<total>[\\d.]+[A-Za-z]+)\\((?P<percent>[\\d.]+)%\\).*?DL:(?P<speed>[\\d.]+[A-Za-z]+)"@
}

/// Matches a status line that gives no more than the percentage.
pub open spec fn percent_pattern() -> Seq<char> {
    "\\((?P<percent>[\\d.]+)%\\)"@
}

/// Ten to the power of `k`.
pub open spec fn pow10(k: nat) -> nat
    decreases k,
{
    if k == 0 {
        1
    } else {
        10 * pow10((k - 1) as nat)
    }
}

/// How many digits after the point count.
pub const FRACTION_DIGITS: usize = 9;

/// The digits before the point of a numeral.
pub open spec fn whole_part(text: Seq<char>) -> Seq<char> {
    if 0 <= index_of_char(text, '.') <= text.len() {
        text.take(index_of_char(text, '.'))
    } else {
        text
    }
}

/// The digits after the point of a numeral, as far as they count.
pub open spec fn fraction_part(text: Seq<char>) -> Seq<char> {
    if 0 <= index_of_char(text, '.') < text.len() {
        let all = text.skip(index_of_char(text, '.') + 1);
        if all.len() > FRACTION_DIGITS {
            all.take(FRACTION_DIGITS as int)
        } else {
            all
        }
    } else {
        Seq::empty()
    }
}

/// Whether a text is a numeral: digits, with at most one point among them.
pub open spec fn is_numeral(text: Seq<char>) -> bool {
    let k = index_of_char(text, '.');
    if 0 <= k < text.len() {
        all_digits(text.take(k)) && all_digits(text.skip(k + 1)) && text.len() > 1
    } else {
        all_digits(text) && text.len() > 0
    }
}

/// A numeral times a unit, cut to a whole number; a product too large for
/// 64 bits becomes the largest number.
pub open spec fn numeral_times(text: Seq<char>, unit: u64) -> u64 {
    let product = digits_value(whole_part(text)) * unit + (digits_value(fraction_part(text))
        * unit) as int / pow10(fraction_part(text).len()) as int;
    if product > u64::MAX {
        u64::MAX
    } else {
        product as u64
    }
}

/// A text without the repetitions of `unit` at its end.
pub open spec fn without_unit(text: Seq<char>, unit: Seq<char>) -> Seq<char>
    decreases text.len(),
{
    if unit.len() > 0 && has_suffix(text, unit) {
        without_unit(text.take(text.len() - unit.len()), unit)
    } else {
        text
    }
}

/// What a text says under one unit: it ends with the unit, and what stands
/// before is a numeral.
pub open spec fn size_in_unit(text: Seq<char>, unit: Seq<char>, bytes: u64) -> Option<u64> {
    if has_suffix(text, unit) && is_numeral(without_unit(text, unit)) {
        Some(numeral_times(without_unit(text, unit), bytes))
    } else {
        None
    }
}

/// The number of bytes that a size such as `53MiB`, `5.9KiB` or `100B`
/// stands for. White space around it does not count. The units are binary;
/// a numeral without a unit counts bytes.
pub open spec fn size_of(input: Seq<char>) -> Option<u64> {
    let text = trimmed(input);
    if size_in_unit(text, "GiB"@, GIB).is_some() {
        size_in_unit(text, "GiB"@, GIB)
    } else if size_in_unit(text, "MiB"@, MIB).is_some() {
        size_in_unit(text, "MiB"@, MIB)
    } else if size_in_unit(text, "KiB"@, KIB).is_some() {
        size_in_unit(text, "KiB"@, KIB)
    } else if size_in_unit(text, "B"@, 1).is_some() {
        size_in_unit(text, "B"@, 1)
    } else if is_numeral(text) {
        Some(numeral_times(text, 1))
    } else {
        None
    }
}

fn only_digits(s: &[char]) -> (r: bool)
    ensures
        r == all_digits(s@),
{
    let mut i: usize = 0;
    while i < s.len()
        invariant
            i <= s.len(),
            forall|k: int| 0 <= k < i ==> is_digit(#[trigger] s@[k]),
        decreases s.len() - i,
    {
        if !is_ascii_digit(s[i]) {
            return false;
        }
        i = i + 1;
    }
    true
}

fn check_numeral(s: &[char]) -> (r: bool)
    ensures
        r == is_numeral(s@),
{
    let k = position(s, '.');
    if k < s.len() {
        let whole = copy_range(s, 0, k);
        let frac = copy_range(s, k + 1, s.len());
        assert(whole@ =~= s@.take(k as int));
        assert(frac@ =~= s@.skip(k + 1));
        only_digits(whole.as_slice()) && only_digits(frac.as_slice()) && s.len() > 1
    } else {
        only_digits(s) && s.len() > 0
    }
}

fn power_of_ten(k: usize) -> (p: u64)
    requires
        k <= FRACTION_DIGITS,
    ensures
        p == pow10(k as nat),
        1 <= p <= 1_000_000_000,
{
    let mut p: u64 = 1;
    let mut i: usize = 0;
    while i < k
        invariant
            i <= k <= FRACTION_DIGITS,
            p == pow10(i as nat),
            1 <= p,
            p <= 1_000_000_000,
            i < FRACTION_DIGITS ==> p <= 100_000_000,
        decreases k - i,
    {
        proof {
            reveal_with_fuel(pow10, 11);
            lemma_pow10_small(i as nat);
            lemma_pow10_small(i as nat + 1);
        }
        p = p * 10;
        i = i + 1;
    }
    p
}

proof fn lemma_pow10_small(k: nat)
    ensures
        pow10(k) >= 1,
        k <= 9 ==> pow10(k) <= 1_000_000_000,
        k < 9 ==> pow10(k) <= 100_000_000,
    decreases k,
{
    reveal_with_fuel(pow10, 11);
    if k > 0 {
        lemma_pow10_small((k - 1) as nat);
    }
}

proof fn lemma_digits_below(s: Seq<char>)
    requires
        all_digits(s),
    ensures
        digits_value(s) < pow10(s.len()),
    decreases s.len(),
{
    if s.len() > 0 {
        let t = s.drop_last();
        assert forall|i: int| 0 <= i < t.len() implies is_digit(#[trigger] t[i]) by {
            assert(t[i] == s[i]);
        }
        lemma_digits_below(t);
        assert(is_digit(s[s.len() - 1]));
    }
}

/// A numeral times a unit, cut to a whole number.
fn times_unit(s: &[char], unit: u64) -> (v: u64)
    requires
        is_numeral(s@),
        1 <= unit,
    ensures
        v == numeral_times(s@, unit),
{
    let k = position(s, '.');
    let whole = copy_range(s, 0, k);
    assert(whole@ =~= whole_part(s@));
    let frac: Vec<char> = if k < s.len() {
        let all = copy_range(s, k + 1, s.len());
        assert(all@ =~= s@.skip(k + 1));
        if all.len() > FRACTION_DIGITS {
            let cut = copy_range(all.as_slice(), 0, FRACTION_DIGITS);
            assert(cut@ =~= all@.take(FRACTION_DIGITS as int));
            assert forall|i: int| 0 <= i < cut@.len() implies is_digit(#[trigger] cut@[i]) by {
                assert(cut@[i] == all@[i]);
            }
            cut
        } else {
            all
        }
    } else {
        Vec::new()
    };
    assert(frac@ =~= fraction_part(s@));
    assert(all_digits(frac@));
    assert(all_digits(whole@));
    proof {
        lemma_digits_below(frac@);
        lemma_pow10_small(frac@.len());
    }
    let scale = power_of_ten(frac.len());
    let ghost exact = (digits_value(frac@) * unit) as int / pow10(frac@.len()) as int;
    let below: u128 = if frac.len() == 0 {
        assert(digits_value(frac@) == 0);
        assert(pow10(frac@.len()) == 1);
        assert(digits_value(frac@) * unit == 0) by (nonlinear_arith)
            requires
                digits_value(frac@) == 0,
        ;
        assert(exact == 0);
        0
    } else {
        match parse_digits(frac.as_slice(), 999_999_999) {
            Some(f) => {
                assert(f * unit <= 999_999_999 * 0xFFFF_FFFF_FFFF_FFFF) by (nonlinear_arith)
                    requires
                        f <= 999_999_999,
                        unit <= 0xFFFF_FFFF_FFFF_FFFF,
                ;
                (f as u128) * (unit as u128) / (scale as u128)
            },
            None => {
                assert(false);
                0
            },
        }
    };
    assert(below == exact);
    assert(below <= 999_999_999 * 0xFFFF_FFFF_FFFF_FFFF) by {
        assert(exact <= digits_value(frac@) * unit) by (nonlinear_arith)
            requires
                exact == (digits_value(frac@) * unit) as int / pow10(frac@.len()) as int,
                pow10(frac@.len()) >= 1,
        ;
        assert(digits_value(frac@) * unit <= 999_999_999 * 0xFFFF_FFFF_FFFF_FFFF)
            by (nonlinear_arith)
            requires
                digits_value(frac@) <= 999_999_999,
                unit <= 0xFFFF_FFFF_FFFF_FFFF,
        ;
    }
    let above: u128 = if whole.len() == 0 {
        assert(digits_value(whole@) == 0);
        assert(digits_value(whole@) * unit == 0) by (nonlinear_arith)
            requires
                digits_value(whole@) == 0,
        ;
        0
    } else {
        match parse_digits(whole.as_slice(), u64::MAX) {
            Some(w) => {
                assert((w as u128) * (unit as u128) <= 0xFFFF_FFFF_FFFF_FFFF
                    * 0xFFFF_FFFF_FFFF_FFFF) by (nonlinear_arith)
                    requires
                        w <= 0xFFFF_FFFF_FFFF_FFFF,
                        unit <= 0xFFFF_FFFF_FFFF_FFFF,
                ;
                (w as u128) * (unit as u128)
            },
            None => {
                assert(digits_value(whole@) * unit > u64::MAX) by (nonlinear_arith)
                    requires
                        digits_value(whole@) > u64::MAX,
                        unit >= 1,
                ;
                return u64::MAX;
            },
        }
    };
    assert(above == digits_value(whole@) * unit);
    if above > u64::MAX as u128 {
        return u64::MAX;
    }
    let product: u128 = above + below;
    if product > u64::MAX as u128 {
        u64::MAX
    } else {
        product as u64
    }
}

fn strip_unit(s: &[char], unit: &[char]) -> (t: Vec<char>)
    ensures
        t@ == without_unit(s@, unit@),
{
    let mut end: usize = s.len();
    if unit.len() == 0 {
        let t = copy_range(s, 0, end);
        assert(t@ =~= s@);
        return t;
    }
    assert(s@.take(end as int) =~= s@);
    loop
        invariant
            end <= s.len(),
            unit.len() > 0,
            without_unit(s@, unit@) == without_unit(s@.take(end as int), unit@),
        decreases end,
    {
        let head = copy_range(s, 0, end);
        assert(head@ =~= s@.take(end as int));
        if !ends_with(head.as_slice(), unit) {
            return head;
        }
        assert(s@.take(end as int).take(end - unit.len()) =~= s@.take(end - unit.len()));
        end = end - unit.len();
    }
}

fn parse_in_unit(text: &[char], unit: &str, bytes: u64) -> (v: Option<u64>)
    requires
        1 <= bytes,
    ensures
        v == size_in_unit(text@, unit@, bytes),
{
    let u = chars_of(unit);
    if !ends_with(text, u.as_slice()) {
        return None;
    }
    let number = strip_unit(text, u.as_slice());
    if check_numeral(number.as_slice()) {
        Some(times_unit(number.as_slice(), bytes))
    } else {
        None
    }
}

/// Reads a size such as `53MiB`, `5.9KiB` or `100B` as a number of bytes.
pub fn parse_aria_size(input: &str) -> (bytes: Option<u64>)
    ensures
        bytes == size_of(input@),
{
    let chars = chars_of(input);
    let clean = trim(chars.as_slice());
    let text = clean.as_slice();
    let g = parse_in_unit(text, "GiB", GIB);
    if g.is_some() {
        return g;
    }
    let m = parse_in_unit(text, "MiB", MIB);
    if m.is_some() {
        return m;
    }
    let k = parse_in_unit(text, "KiB", KIB);
    if k.is_some() {
        return k;
    }
    let b = parse_in_unit(text, "B", 1);
    if b.is_some() {
        return b;
    }
    if check_numeral(text) {
        Some(times_unit(text, 1))
    } else {
        None
    }
}

/// Progress as the adapter reports it: bytes so far, bytes in all, bytes
/// per second.
#[derive(Clone, Copy, Debug, PartialEq, Eq, Structural)]
pub struct AriaProgress {
    pub downloaded: u64,
    pub total: u64,
    pub speed: u64,
}

/// Group `i` of a match, if it took part.
pub open spec fn group_at(groups: Seq<Option<Seq<char>>>, i: int) -> Option<Seq<char>> {
    if 0 <= i < groups.len() {
        groups[i]
    } else {
        None
    }
}

/// The size that a group of a match gives; nothing counts as zero.
pub open spec fn size_or_zero(group: Option<Seq<char>>) -> u64 {
    match group {
        Some(text) => match size_of(text) {
            Some(v) => v,
            None => 0,
        },
        None => 0,
    }
}

/// The total that is reported: the one that was read, else the fallback,
/// else nothing.
pub open spec fn total_or_fallback(total: u64, fallback: Option<u64>) -> u64 {
    if total > 0 {
        total
    } else {
        match fallback {
            Some(f) => f,
            None => 0,
        }
    }
}

/// What a full status line says.
pub open spec fn full_status(groups: Seq<Option<Seq<char>>>, fallback: Option<u64>) -> AriaProgress {
    AriaProgress {
        downloaded: size_or_zero(group_at(groups, 1)),
        total: total_or_fallback(size_or_zero(group_at(groups, 2)), fallback),
        speed: size_or_zero(group_at(groups, 4)),
    }
}

/// What a status line with no more than a percentage says: that share of
/// the fallback total.
pub open spec fn percent_status(groups: Seq<Option<Seq<char>>>, fallback: Option<u64>) -> Option<
    AriaProgress,
> {
    match group_at(groups, 1) {
        Some(text) => if is_numeral(text) {
            Some(
                AriaProgress {
                    downloaded: if total_or_fallback(0, fallback) == 0 {
                        0
                    } else {
                        numeral_times(text, total_or_fallback(0, fallback)) / 100
                    },
                    total: total_or_fallback(0, fallback),
                    speed: 0,
                },
            )
        } else {
            None
        },
        None => None,
    }
}

/// What a status line says, given the groups that the two patterns found in it.
pub open spec fn status_progress(
    full: Option<Seq<Option<Seq<char>>>>,
    percent: Option<Seq<Option<Seq<char>>>>,
    fallback: Option<u64>,
) -> Option<AriaProgress> {
    match full {
        Some(groups) => Some(full_status(groups, fallback)),
        None => match percent {
            Some(groups) => percent_status(groups, fallback),
            None => None,
        },
    }
}


/// The directory of a path that ends in a file name: what stands before
/// the name, without the separators at its end; the root stays the root.
pub open spec fn directory_of(path: Seq<char>) -> Seq<char> {
    let head = path.take(path.len() - last_component(path).len());
    let bare = without_separators(head);
    if head.len() > 0 && bare.len() == 0 {
        head.take(1)
    } else {
        bare
    }
}

/// A path without the separators at its end.
pub open spec fn without_separators(path: Seq<char>) -> Seq<char>
    decreases path.len(),
{
    if path.len() > 0 && is_separator(path.last()) {
        without_separators(path.drop_last())
    } else {
        path
    }
}

proof fn lemma_without_separators(path: Seq<char>, k: int)
    requires
        0 <= k <= path.len(),
        forall|j: int| k <= j < path.len() ==> is_separator(#[trigger] path[j]),
        k > 0 ==> !is_separator(path[k - 1]),
    ensures
        without_separators(path) == path.take(k),
    decreases path.len() - k,
{
    if k == path.len() {
        assert(path.take(k) =~= path);
    } else {
        lemma_without_separators(path.drop_last(), k);
        assert(path.drop_last().take(k) =~= path.take(k));
    }
}

proof fn lemma_last_component_len(path: Seq<char>)
    ensures
        last_component(path).len() <= path.len(),
    decreases path.len(),
{
    if path.len() > 0 && !is_separator(path.last()) {
        lemma_last_component_len(path.drop_last());
    }
}

/// Where the adapter stages a download and under which name.
#[derive(Debug)]
pub struct AriaStaging {
    pub dir: String,
    pub tmp_filename: String,
    pub tmp_path: String,
}

pub ghost struct AriaStagingView {
    pub dir: Seq<char>,
    pub tmp_filename: Seq<char>,
    pub tmp_path: Seq<char>,
}

impl View for AriaStaging {
    type V = AriaStagingView;

    open spec fn view(&self) -> AriaStagingView {
        AriaStagingView {
            dir: self.dir@,
            tmp_filename: self.tmp_filename@,
            tmp_path: self.tmp_path@,
        }
    }
}

/// Where a download to `target` is staged: beside the target, under its
/// name with `.tmp` at the end. A target without a file name has no
/// staging place.
pub open spec fn staging_of(target: Seq<char>) -> Result<AriaStagingView, TransportErrorView> {
    if target.len() == 0 {
        Err(TransportErrorView::Validation("Invalid path"@))
    } else {
        match file_name_of(target) {
            Some(name) => Ok(
                AriaStagingView {
                    dir: directory_of(target),
                    tmp_filename: name + ".tmp"@,
                    tmp_path: crate::worker::joined_path(directory_of(target), name + ".tmp"@),
                },
            ),
            None => Err(TransportErrorView::Validation("Invalid filename"@)),
        }
    }
}

/// The arguments of the downloader: eight connections, eight to a server,
/// one download at a time, parts of a mebibyte at least, leave to
/// overwrite, and a status line every second.
pub open spec fn aria_flags(url: Seq<char>, staging: AriaStagingView) -> Seq<Seq<char>> {
    seq![
        url,
        "-d"@,
        staging.dir,
        "-o"@,
        staging.tmp_filename,
        "-s"@,
        "8"@,
        "-x"@,
        "8"@,
        "-j"@,
        "1"@,
        "--min-split-size=1M"@,
        "--allow-overwrite=true"@,
        "--summary-interval=1"@,
    ]
}

/// How an exit code is written in an error.
pub open spec fn exit_code_text(code: Option<i32>) -> Seq<char> {
    match code {
        Some(c) => "Some("@ + signed_decimal(c as int) + ")"@,
        None => "None"@,
    }
}

/// What the end of the downloader means: on success a last report that
/// all is there, else an error that names the exit code.
pub open spec fn exit_outcome(succeeded: bool, exit_code: Option<i32>, fallback: Option<u64>) -> Result<
    AriaProgress,
    TransportErrorView,
> {
    if succeeded {
        Ok(
            AriaProgress {
                downloaded: total_or_fallback(0, fallback),
                total: total_or_fallback(0, fallback),
                speed: 0,
            },
        )
    } else {
        Err(TransportErrorView::Validation("Aria2 exited with code "@ + exit_code_text(exit_code)))
    }
}

/// The adapter for one download.
#[derive(Debug)]
pub struct AriaEngine {
    url: String,
    target_path: String,
    aria_bin: String,
    fallback_size: Option<u64>,
}

pub ghost struct AriaEngineView {
    pub url: Seq<char>,
    pub target_path: Seq<char>,
    pub aria_bin: Seq<char>,
    pub fallback_size: Option<u64>,
}

impl View for AriaEngine {
    type V = AriaEngineView;

    closed spec fn view(&self) -> AriaEngineView {
        AriaEngineView {
            url: self.url@,
            target_path: self.target_path@,
            aria_bin: self.aria_bin@,
            fallback_size: self.fallback_size,
        }
    }
}

/// The view of a staging result.
pub open spec fn staging_view(r: Result<AriaStaging, TransportError>) -> Result<
    AriaStagingView,
    TransportErrorView,
> {
    match r {
        Ok(s) => Ok(s@),
        Err(e) => Err(e@),
    }
}

/// The view of a result that carries a list of arguments.
pub open spec fn args_view(r: Result<Vec<String>, TransportError>) -> Result<
    Seq<Seq<char>>,
    TransportErrorView,
> {
    match r {
        Ok(v) => Ok(views(v@)),
        Err(e) => Err(e@),
    }
}

fn group(groups: &Vec<Option<String>>, i: usize) -> (g: Option<&String>)
    ensures
        (match g {
            Some(s) => Some(s@),
            None => None,
        }) == group_at(crate::pattern::group_views(groups@), i as int),
{
    if i < groups.len() {
        match &groups[i] {
            Some(s) => Some(s),
            None => None,
        }
    } else {
        None
    }
}

fn group_size(groups: &Vec<Option<String>>, i: usize) -> (v: u64)
    ensures
        v == size_or_zero(group_at(crate::pattern::group_views(groups@), i as int)),
{
    match group(groups, i) {
        Some(text) => match parse_aria_size(text.as_str()) {
            Some(v) => v,
            None => 0,
        },
        None => 0,
    }
}

impl AriaEngine {
    /// The adapter for a download of `url` to `target_path` with the downloader at `aria_bin`.
    pub fn new(url: &str, target_path: String, aria_bin: String, fallback_size: Option<u64>) -> (engine:
        Self)
        ensures
            engine@ == (AriaEngineView {
                url: url@,
                target_path: target_path@,
                aria_bin: aria_bin@,
                fallback_size,
            }),
    {
        AriaEngine { url: url.to_owned(), target_path, aria_bin, fallback_size }
    }

    /// The executable of the downloader.
    pub fn binary(&self) -> (path: &str)
        ensures
            path@ == self@.aria_bin,
    {
        self.aria_bin.as_str()
    }

    /// Where the finished file goes.
    pub fn target_path(&self) -> (path: &str)
        ensures
            path@ == self@.target_path,
    {
        self.target_path.as_str()
    }

    /// Where the download is staged.
    pub fn staging(&self) -> (r: Result<AriaStaging, TransportError>)
        ensures
            staging_view(r) == staging_of(self@.target_path),
    {
        let chars = chars_of(self.target_path.as_str());
        if chars.len() == 0 {
            return Err(TransportError::Validation("Invalid path".to_owned()));
        }
        match file_name(self.target_path.as_str()) {
            Some(name) => {
                proof {
                    lemma_last_component_len(chars@);
                }
                let name_len = name.as_str().unicode_len();
                let head_len: usize = chars.len() - name_len;
                let mut end: usize = head_len;
                while end > 0 && (chars[end - 1] == '/' || chars[end - 1] == '\\')
                    invariant
                        end <= head_len <= chars.len(),
                        forall|j: int| end <= j < head_len ==> is_separator(#[trigger] chars@[j]),
                    decreases end,
                {
                    end = end - 1;
                }
                proof {
                    let head = chars@.take(head_len as int);
                    assert forall|j: int| end <= j < head.len() implies is_separator(
                        #[trigger] head[j],
                    ) by {
                        assert(head[j] == chars@[j]);
                    }
                    lemma_without_separators(head, end as int);
                    assert(head.take(end as int) =~= chars@.take(end as int));
                    if head_len > 0 {
                        assert(head.take(1) =~= chars@.take(1));
                    }
                }
                let dir_chars = if head_len > 0 && end == 0 {
                    let root = crate::text::copy_range(chars.as_slice(), 0, 1);
                    assert(root@ =~= chars@.take(1));
                    root
                } else {
                    let d = crate::text::copy_range(chars.as_slice(), 0, end);
                    assert(d@ =~= chars@.take(end as int));
                    d
                };
                let dir = string_of(dir_chars.as_slice());
                let tmp_filename = concat(name.as_str(), ".tmp");
                let tmp_path = crate::worker::join_path(dir.as_str(), tmp_filename.as_str());
                Ok(AriaStaging { dir, tmp_filename, tmp_path })
            },
            None => Err(TransportError::Validation("Invalid filename".to_owned())),
        }
    }

    /// The arguments that the downloader is started with.
    pub fn args(&self) -> (r: Result<Vec<String>, TransportError>)
        ensures
            args_view(r) == match staging_of(self@.target_path) {
                Ok(staging) => Ok(aria_flags(self@.url, staging)),
                Err(e) => Err(e),
            },
    {
        match self.staging() {
            Ok(staging) => {
                let mut args: Vec<String> = Vec::new();
                push_text(&mut args, self.url.as_str());
                push_text(&mut args, "-d");
                push_text(&mut args, staging.dir.as_str());
                push_text(&mut args, "-o");
                push_text(&mut args, staging.tmp_filename.as_str());
                push_text(&mut args, "-s");
                push_text(&mut args, "8");
                push_text(&mut args, "-x");
                push_text(&mut args, "8");
                push_text(&mut args, "-j");
                push_text(&mut args, "1");
                push_text(&mut args, "--min-split-size=1M");
                push_text(&mut args, "--allow-overwrite=true");
                push_text(&mut args, "--summary-interval=1");
                assert(views(args@) =~= aria_flags(self@.url, staging@));
                Ok(args)
            },
            Err(e) => Err(e),
        }
    }

    /// What a status line says, given the groups that the two patterns
    /// found in it.
    pub fn read_status(
        &self,
        full: &Option<Vec<Option<String>>>,
        percent: &Option<Vec<Option<String>>>,
    ) -> (progress: Option<AriaProgress>)
        ensures
            progress == status_progress(
                captures_view(*full),
                captures_view(*percent),
                self@.fallback_size,
            ),
    {
        let fallback: u64 = match self.fallback_size {
            Some(f) => f,
            None => 0,
        };
        match full {
            Some(groups) => {
                let total = group_size(groups, 2);
                Some(
                    AriaProgress {
                        downloaded: group_size(groups, 1),
                        total: if total > 0 {
                            total
                        } else {
                            fallback
                        },
                        speed: group_size(groups, 4),
                    },
                )
            },
            None => match percent {
                Some(groups) => match group(groups, 1) {
                    Some(text) => {
                        let chars = chars_of(text.as_str());
                        if check_numeral(chars.as_slice()) {
                            let downloaded = if fallback == 0 {
                                0
                            } else {
                                times_unit(chars.as_slice(), fallback) / 100
                            };
                            Some(AriaProgress { downloaded, total: fallback, speed: 0 })
                        } else {
                            None
                        }
                    },
                    None => None,
                },
                None => None,
            },
        }
    }

    /// What a status line says.
    pub fn on_line(&self, line: &str) -> (progress: Option<AriaProgress>)
        ensures
            progress == status_progress(
                regex_captures(status_pattern(), line@),
                regex_captures(percent_pattern(), line@),
                self@.fallback_size,
            ),
    {
        let full = captures(
            "(?P<current>[\\d.]+[A-Za-z]+)/(?P<total>[\\d.]+[A-Za-z]+)\\((?P<percent>[\\d.]+)%\\).*?DL:(?P<speed>[\\d.]+[A-Za-z]+)",
            line,
        );
        let percent = if full.is_none() {
            captures("\\((?P<percent>[\\d.]+)%\\)", line)
        } else {
            None
        };
        self.read_status(&full, &percent)
    }

    /// What the end of the downloader means.
    pub fn after_exit(&self, succeeded: bool, exit_code: Option<i32>) -> (r: Result<
        AriaProgress,
        TransportError,
    >)
        ensures
            crate::transport::result_view(r) == exit_outcome(
                succeeded,
                exit_code,
                self@.fallback_size,
            ),
    {
        if succeeded {
            let total: u64 = match self.fallback_size {
                Some(f) => f,
                None => 0,
            };
            Ok(AriaProgress { downloaded: total, total, speed: 0 })
        } else {
            let mut out = chars_of("Aria2 exited with code ");
            match exit_code {
                Some(c) => {
                    push_str(&mut out, "Some(");
                    push_signed(&mut out, c);
                    push_str(&mut out, ")");
                    assert(out@ =~= "Aria2 exited with code "@ + exit_code_text(exit_code));
                },
                None => {
                    push_str(&mut out, "None");
                },
            }
            Err(TransportError::Validation(string_of(out.as_slice())))
        }
    }
}

} // verus!
