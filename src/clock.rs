//! The calls into chrono: the machine's local time zone, the current time and
//! the parsing of the date text shown in the edit field.
use vstd::prelude::*;
use chrono::{DateTime, NaiveDateTime, TimeZone, Utc, Local};

verus! {

/// The instant a date text denotes on the wall clock, where the text matches
/// the pattern `HH:MM:SS DD/MM/YYYY`.
pub uninterp spec fn wall_clock_of_text(s: Seq<char>) -> Option<i64>;

/// Relies on chrono's `Local::offset_from_utc_datetime`: the local offset in
/// seconds east of UTC at the instant `ts`. chrono builds every offset with
/// `FixedOffset::east_opt`, which admits only values strictly within one day.
/// `None` where `DateTime::from_timestamp` cannot represent `ts`.
#[verifier::external_body]
pub(crate) fn utc_offset_at(ts: i64) -> (r: Option<i32>)
    ensures
        r matches Some(o) ==> -86400 < o < 86400,
{
    DateTime::from_timestamp(ts, 0).map(|d| Local.offset_from_utc_datetime(&d.naive_utc()).local_minus_utc())
}

/// Relies on chrono's `Local::offset_from_local_datetime`: the local offset in
/// force at the wall-clock instant `wall`. Where the wall clock shows it twice,
/// `earliest` takes the first offset chrono lists, the smaller one, which
/// places the later of the two instants. `None` where the wall clock skips
/// that instant or chrono cannot represent it. Offsets lie strictly within one day (`FixedOffset::east_opt`).
#[verifier::external_body]
pub(crate) fn wall_offset_at(wall: i64) -> (r: Option<i32>)
    ensures
        r matches Some(o) ==> -86400 < o < 86400,
{
    DateTime::from_timestamp(wall, 0)
        .and_then(|d| Local.offset_from_local_datetime(&d.naive_utc()).earliest())
        .map(|o| o.local_minus_utc())
}

/// Relies on chrono's `From<SystemTime> for DateTime<Utc>`, applied to
/// `SystemTime::now()`: the current Unix time in seconds, negative for a clock
/// set before 1970. Nothing is known of the value. (chrono unwraps only for a
/// clock beyond its date range, hundreds of thousands of years from now.)
#[verifier::external_body]
pub(crate) fn now_timestamp() -> (r: i64) {
    DateTime::<Utc>::from(std::time::SystemTime::now()).timestamp()
}

/// Relies on chrono's `NaiveDateTime::parse_from_str` with the pattern
/// `%H:%M:%S %d/%m/%Y`: the wall-clock seconds the text denotes, or `None`
/// where it does not match. The result depends on the text alone.
#[verifier::external_body]
pub(crate) fn parse_wall_clock(s: &str) -> (r: Option<i64>)
    ensures
        r == wall_clock_of_text(s@),
{
    NaiveDateTime::parse_from_str(s, "%H:%M:%S %d/%m/%Y").ok().map(|n| n.and_utc().timestamp())
}

} // verus!
