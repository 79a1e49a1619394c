//! Fetching a helper binary: which engine does it, and what the installer
//! shows of its progress.

use vstd::prelude::*;
use crate::stream::MIB;
use crate::text::{
    chars_of, decimal, lowered, push_decimal, push_str, same_chars, string_of, to_lower,
};


verus! {

/// The progress of the installation of one helper binary.
#[derive(Debug)]
pub struct InstallProgressPayload {
    pub name: String,
    pub percentage: u64,
    pub status: String,
}

pub ghost struct InstallProgressPayloadView {
    pub name: Seq<char>,
    pub percentage: u64,
    pub status: Seq<char>,
}

impl View for InstallProgressPayload {
    type V = InstallProgressPayloadView;

    open spec fn view(&self) -> InstallProgressPayloadView {
        InstallProgressPayloadView {
            name: self.name@,
            percentage: self.percentage,
            status: self.status@,
        }
    }
}

/// The view of an optional payload.
pub open spec fn payload_view(p: Option<InstallProgressPayload>) -> Option<
    InstallProgressPayloadView,
> {
    match p {
        Some(payload) => Some(payload@),
        None => None,
    }
}

/// Which engine fetches a file.
#[derive(Clone, Copy, Debug, PartialEq, Eq, Structural)]
pub enum EngineChoice {
    /// The multi-connection downloader.
    Aria,
    /// The engine of this library.
    Native,
}

/// The engine that fetches the binary `name`: the multi-connection
/// downloader where it is installed, but never for itself.
pub open spec fn engine_for(aria_present: bool, name: Seq<char>) -> EngineChoice {
    if aria_present && lowered(name) != "aria2"@ {
        EngineChoice::Aria
    } else {
        EngineChoice::Native
    }
}

/// Picks the engine that fetches the binary `name`.
pub fn choose_engine(aria_present: bool, name: &str) -> (choice: EngineChoice)
    ensures
        choice == engine_for(aria_present, name@),
{
    let chars = chars_of(name);
    let lower = to_lower(chars.as_slice());
    let itself = chars_of("aria2");
    if aria_present && !same_chars(lower.as_slice(), itself.as_slice()) {
        EngineChoice::Aria
    } else {
        EngineChoice::Native
    }
}

/// What follows a run of the multi-connection downloader: nothing where it
/// succeeded; where it failed, what it left behind is removed and the
/// engine of this library takes over.
pub fn after_aria(succeeded: bool) -> (next: Option<EngineChoice>)
    ensures
        next == if succeeded {
            None
        } else {
            Some(EngineChoice::Native)
        },
{
    if succeeded {
        None
    } else {
        Some(EngineChoice::Native)
    }
}

/// The payload that opens an installation.
pub fn initializing(name: &str) -> (p: InstallProgressPayload)
    ensures
        p@ == (InstallProgressPayloadView {
            name: name@,
            percentage: 0,
            status: "Initializing..."@,
        }),
{
    InstallProgressPayload {
        name: name.to_owned(),
        percentage: 0,
        status: "Initializing...".to_owned(),
    }
}

/// The payload that says that the engine of this library is at work; it
/// reports no percentages.
pub fn native_notice(name: &str) -> (p: InstallProgressPayload)
    ensures
        p@ == (InstallProgressPayloadView {
            name: name@,
            percentage: 0,
            status: "Downloading (Native)..."@,
        }),
{
    InstallProgressPayload {
        name: name.to_owned(),
        percentage: 0,
        status: "Downloading (Native)...".to_owned(),
    }
}

/// The payload that says that an archive is being unpacked.
pub fn extracting(name: &str) -> (p: InstallProgressPayload)
    ensures
        p@ == (InstallProgressPayloadView {
            name: name@,
            percentage: 100,
            status: "Extracting "@ + name@ + "..."@,
        }),
{
    let mut status = chars_of("Extracting ");
    push_str(&mut status, name);
    push_str(&mut status, "...");
    InstallProgressPayload {
        name: name.to_owned(),
        percentage: 100,
        status: string_of(status.as_slice()),
    }
}

/// The total against which progress is measured: the one that the engine
/// reports, else the fallback, else nothing.
pub open spec fn effective_total(total: u64, fallback: Option<u64>) -> u64 {
    if total == 0 {
        match fallback {
            Some(f) => f,
            None => 0,
        }
    } else {
        total
    }
}

/// `downloaded` out of `total` in percent, cut to a whole number; nothing
/// where the total is unknown.
pub open spec fn percentage_of(downloaded: u64, total: u64) -> u64 {
    if total == 0 {
        0
    } else if downloaded as int * 100 / total as int > u64::MAX {
        u64::MAX
    } else {
        (downloaded as int * 100 / total as int) as u64
    }
}

/// Whether a report goes out: the percentage has risen or is full, or, with
/// the total unknown, another whole mebibyte is there.
pub open spec fn is_report_due(percentage: u64, previous: u64, total: u64, downloaded: u64) -> bool {
    percentage > previous || percentage == 100 || (total == 0 && downloaded % MIB == 0)
}

/// `amount / unit` in tenths, rounded to the nearest, a tie to the even one.
pub open spec fn tenths_of(amount: nat, unit: nat) -> nat
    recommends
        unit > 0,
{
    let q = amount * 10 / unit;
    let r = amount * 10 % unit;
    if 2 * r > unit || (2 * r == unit && q % 2 == 1) {
        q + 1
    } else {
        q
    }
}

/// A number of tenths written with one decimal place.
pub open spec fn fixed1(tenths: nat) -> Seq<char> {
    decimal(tenths / 10) + "."@ + decimal(tenths % 10)
}

/// What a report says in words.
pub open spec fn status_of(percentage: u64, total: u64, downloaded: u64, speed: u64) -> Seq<char> {
    if percentage == 100 {
        "Verifying..."@
    } else if total == 0 {
        fixed1(tenths_of(downloaded as nat, MIB as nat)) + " MB"@
    } else {
        fixed1(tenths_of(speed as nat, MIB as nat)) + " MB/s"@
    }
}

fn tenths(amount: u64) -> (t: u64)
    ensures
        t == tenths_of(amount as nat, MIB as nat),
{
    let scaled: u128 = (amount as u128) * 10;
    let q: u128 = scaled / (MIB as u128);
    let r: u128 = scaled % (MIB as u128);
    if 2 * r > MIB as u128 || (2 * r == MIB as u128 && q % 2 == 1) {
        (q + 1) as u64
    } else {
        q as u64
    }
}

fn push_fixed1(out: &mut Vec<char>, t: u64)
    ensures
        final(out)@ == old(out)@ + fixed1(t as nat),
{
    push_decimal(out, t / 10);
    push_str(out, ".");
    push_decimal(out, t % 10);
    assert(out@ =~= old(out)@ + fixed1(t as nat));
}

/// Turns the progress of an engine into what the installer shows.
#[derive(Debug)]
pub struct ProgressReporter {
    name: String,
    fallback_size: Option<u64>,
    last_percentage: u64,
}

pub ghost struct ProgressReporterView {
    pub name: Seq<char>,
    pub fallback_size: Option<u64>,
    pub last_percentage: u64,
}

impl View for ProgressReporter {
    type V = ProgressReporterView;

    closed spec fn view(&self) -> ProgressReporterView {
        ProgressReporterView {
            name: self.name@,
            fallback_size: self.fallback_size,
            last_percentage: self.last_percentage,
        }
    }
}

/// The reporter after the engine said `downloaded` of `total` at `speed`,
/// and the payload that goes out.
pub open spec fn reported(
    r: ProgressReporterView,
    downloaded: u64,
    total: u64,
    speed: u64,
) -> (ProgressReporterView, Option<InstallProgressPayloadView>) {
    let all = effective_total(total, r.fallback_size);
    let pct = percentage_of(downloaded, all);
    if is_report_due(pct, r.last_percentage, all, downloaded) {
        (
            ProgressReporterView { last_percentage: pct, ..r },
            Some(
                InstallProgressPayloadView {
                    name: r.name,
                    percentage: pct,
                    status: status_of(pct, all, downloaded, speed),
                },
            ),
        )
    } else {
        (r, None)
    }
}

impl ProgressReporter {
    /// A reporter for the installation of `name` that has reported nothing yet.
    pub fn new(name: &str, fallback_size: Option<u64>) -> (r: Self)
        ensures
            r@ == (ProgressReporterView { name: name@, fallback_size, last_percentage: 0 }),
    {
        ProgressReporter { name: name.to_owned(), fallback_size, last_percentage: 0 }
    }

    /// The total against which progress is measured. Where the engine
    /// reports none, it is the fallback or nothing.
    pub fn total_for(&self, total: u64) -> (all: u64)
        ensures
            all == effective_total(total, self@.fallback_size),
            total == 0 ==> all == 0 || Some(all) == self@.fallback_size,
            total != 0 ==> all == total,
    {
        if total == 0 {
            match self.fallback_size {
                Some(f) => f,
                None => 0,
            }
        } else {
            total
        }
    }

    /// Takes in what the engine says, and hands back what the installer shows.
    pub fn on_progress(&mut self, downloaded: u64, total: u64, speed: u64) -> (payload: Option<
        InstallProgressPayload,
    >)
        ensures
            (final(self)@, payload_view(payload)) == reported(old(self)@, downloaded, total, speed),
    {
        let all = self.total_for(total);
        let pct: u64 = if all == 0 {
            0
        } else {
            let scaled: u128 = (downloaded as u128) * 100 / (all as u128);
            if scaled > u64::MAX as u128 {
                u64::MAX
            } else {
                scaled as u64
            }
        };
        if pct > self.last_percentage || pct == 100 || (all == 0 && downloaded % MIB == 0) {
            self.last_percentage = pct;
            let status = if pct == 100 {
                "Verifying...".to_owned()
            } else if all == 0 {
                let mut out: Vec<char> = Vec::new();
                push_fixed1(&mut out, tenths(downloaded));
                push_str(&mut out, " MB");
                assert(out@ =~= status_of(pct, all, downloaded, speed));
                string_of(out.as_slice())
            } else {
                let mut out: Vec<char> = Vec::new();
                push_fixed1(&mut out, tenths(speed));
                push_str(&mut out, " MB/s");
                assert(out@ =~= status_of(pct, all, downloaded, speed));
                string_of(out.as_slice())
            };
            Some(InstallProgressPayload { name: self.name.clone(), percentage: pct, status })
        } else {
            None
        }
    }
}

} // verus!
