//! Names and filters for the log files.

use vstd::prelude::*;
use crate::text::{chars_of, push_str, string_of};

verus! {

/// How many archived logs are kept.
pub const KEPT_ARCHIVES: usize = 10;

/// The filter for a log level: the level for the application, and errors
/// only for the libraries that are chatty.
pub open spec fn filter_of(level: Seq<char>) -> Seq<char> {
    level + ",tao=error,wry=error,hyper=error"@
}

/// Builds the filter for a log level.
pub fn get_filter_string(level: &str) -> (filter: String)
    ensures
        filter@ == filter_of(level@),
{
    let mut out = chars_of(level);
    push_str(&mut out, ",tao=error,wry=error,hyper=error");
    string_of(out.as_slice())
}

/// The name under which a log that ended at `timestamp` is archived.
pub open spec fn archive_name_of(timestamp: Seq<char>) -> Seq<char> {
    "app-"@ + timestamp + ".log"@
}

/// Builds the name under which a log that ended at `timestamp` is archived.
pub fn archive_name(timestamp: &str) -> (name: String)
    ensures
        name@ == archive_name_of(timestamp@),
{
    let mut out = chars_of("app-");
    push_str(&mut out, timestamp);
    push_str(&mut out, ".log");
    string_of(out.as_slice())
}

/// How many of `count` archived logs go, oldest first, so that no more
/// than [`KEPT_ARCHIVES`] stay.
pub fn surplus_archives(count: usize) -> (surplus: usize)
    ensures
        surplus == if count > KEPT_ARCHIVES {
            count - KEPT_ARCHIVES
        } else {
            0
        },
{
    if count > KEPT_ARCHIVES {
        count - KEPT_ARCHIVES
    } else {
        0
    }
}

} // verus!
