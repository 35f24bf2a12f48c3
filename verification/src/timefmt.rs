//! Timestamps: the supported range, the current time, and rendering a
//! timestamp as human-readable UTC text.

use vstd::prelude::*;
use vstd::string::StringExecFns;

verus! {

/// Earliest timestamp (seconds since the epoch) the library renders.
pub const MIN_TS: i64 = -8000000000000;

/// Latest timestamp (seconds since the epoch) the library renders.
pub const MAX_TS: i64 = 8000000000000;

/// Whether a timestamp lies in the range the library can render as UTC
/// text. The bounds stay well inside the years chrono can represent.
pub open spec fn valid_ts(t: int) -> bool {
    MIN_TS <= t <= MAX_TS
}

/// The mathematical value of an optional timestamp.
pub open spec fn opt_ts(o: Option<i64>) -> Option<int> {
    match o {
        Option::Some(t) => Option::Some(t as int),
        Option::None => Option::None,
    }
}

/// The UTC text of a timestamp, as chrono displays it. The text is a
/// function of the seconds alone: UTC needs no time zone database.
pub uninterp spec fn utc_text(t: int) -> Seq<char>;

/// The marker rendered in place of an end time while a task is open.
pub open spec fn in_progress_text() -> Seq<char> {
    "In Progress"@
}

/// Relies on chrono::Utc::now for the current time in seconds since the
/// epoch. Nothing is promised of the result: callers check the range.
#[verifier::external_body]
pub(crate) fn now_timestamp() -> i64 {
    chrono::Utc::now().timestamp()
}

/// Relies on chrono::DateTime::<Utc>::from_timestamp, which accepts every
/// second count in the supported range, and on its Display, whose text
/// depends on the seconds alone and always contains a time of day with
/// ':' separators, so it never equals the open-task marker.
#[verifier::external_body]
pub(crate) fn format_utc(t: i64) -> (s: String)
    requires
        valid_ts(t as int),
    ensures
        s@ == utc_text(t as int),
        s@ != in_progress_text(),
{
    let dt = chrono::DateTime::<chrono::Utc>::from_timestamp(t, 0).unwrap();
    format!("{}", dt)
}

/// Renders an optional end time: UTC text once set, the open-task marker
/// while unset.
pub open spec fn end_text(end_time: Option<int>) -> Seq<char> {
    match end_time {
        Option::Some(t) => utc_text(t),
        Option::None => in_progress_text(),
    }
}

/// Renders an optional end time as `end_text` says.
pub fn format_end(end_time: &Option<i64>) -> (s: String)
    requires
        *end_time matches Option::Some(t) ==> valid_ts(t as int),
    ensures
        s@ == end_text(opt_ts(*end_time)),
{
    match end_time {
        Option::Some(t) => format_utc(*t),
        Option::None => {
            let s = String::from_str("In Progress");
            proof {
                assert(s@ == in_progress_text());
            }
            s
        },
    }
}

/// A completed task's rendered end time is never the open-task marker:
/// within the supported range, the UTC text of a timestamp differs from
/// "In Progress".
pub fn utc_text_is_not_in_progress(t: i64) -> (distinct: bool)
    requires
        valid_ts(t as int),
    ensures
        distinct,
        utc_text(t as int) != in_progress_text(),
{
    let rendered = format_utc(t);
    proof {
        assert(rendered@ != in_progress_text());
    }
    true
}

} // verus!
