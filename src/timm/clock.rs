//! Points in time as whole seconds, read and written with chrono.
//!
//! The router shows naive local times. Such a time is held here as the number
//! of seconds from 1970-01-01 00:00:00 to it, counted as if it were UTC, so
//! that elapsed times are differences of integers.

use vstd::prelude::*;

verus! {

use std::fmt::Write;

/// The point in time that chrono reads out of `text` under `format`, in
/// seconds; `None` where the text does not match the format.
pub uninterp spec fn time_in(text: Seq<char>, format: Seq<char>) -> Option<i64>;

/// The text that chrono writes for the point in time `stamp` under `format`;
/// `None` where `stamp` lies outside chrono's range or the format is invalid.
pub uninterp spec fn time_text(stamp: i64, format: Seq<char>) -> Option<Seq<char>>;

/// Relies on chrono's `NaiveDateTime::parse_from_str`, which reads a date and
/// time out of `text` under `format`, and on `and_utc().timestamp()`, which
/// counts its seconds from 1970-01-01 00:00:00.
#[verifier::external_body]
pub(crate) fn parse_time(text: &str, format: &str) -> (r: Option<i64>)
    ensures
        r == time_in(text@, format@),
{
    chrono::NaiveDateTime::parse_from_str(text, format).ok().map(|t| t.and_utc().timestamp())
}

/// Relies on chrono's `DateTime::from_timestamp`, which gives the date and
/// time `stamp` seconds after 1970-01-01 00:00:00 (`None` out of range), and on
/// `NaiveDateTime::format`, which writes it under `format` (an error where the
/// format is invalid).
#[verifier::external_body]
pub(crate) fn format_time(stamp: i64, format: &str) -> (r: Option<String>)
    ensures
        r is None <==> time_text(stamp, format@) is None,
        r matches Some(s) ==> time_text(stamp, format@) == Some(s@),
{
    let t = chrono::DateTime::from_timestamp(stamp, 0)?.naive_utc();
    let mut out = String::new();
    write!(out, "{}", t.format(format)).ok()?;
    Some(out)
}

/// Relies on chrono's `Utc::now` and `timestamp`: the current time, in whole
/// seconds from 1970-01-01 00:00:00 UTC. Nothing is known of its value.
#[verifier::external_body]
pub(crate) fn now_stamp() -> (r: i64) {
    chrono::Utc::now().timestamp()
}

/// `d` divided by `unit`, rounded toward zero, as chrono counts whole units
/// of a duration.
pub open spec fn whole_units(d: int, unit: int) -> int
    recommends
        unit > 0,
{
    if d >= 0 {
        d / unit
    } else {
        -((-d) / unit)
    }
}

} // verus!
