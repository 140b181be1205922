//! Wall-clock time as plain Unix timestamps, with the calendar readings the
//! workflows need supplied by chrono behind trusted wrappers.

use vstd::prelude::*;

verus! {

/// Upper bound kept on every timestamp this crate stores: the last second of
/// year 9999. Staying below it keeps week arithmetic free of overflow and
/// keeps every timestamp inside chrono's documented calendar range.
pub const TS_MAX: i64 = 253402300799;

/// The month (1 to 12) of a timestamp's UTC calendar date.
pub uninterp spec fn month_of(ts: i64) -> u32;

/// The day of month (1 to 31) of a timestamp's UTC calendar date.
pub uninterp spec fn day_of(ts: i64) -> u32;

/// The year of a timestamp's UTC calendar date.
pub uninterp spec fn year_of(ts: i64) -> i32;

/// The timestamp of midnight UTC opening the given calendar date.
pub uninterp spec fn civil_ts(year: i32, month: u32, day: u32) -> i64;

/// Relies on chrono: `DateTime::from_timestamp` is `Some` for every second of
/// years 1970 to 9999, and `Datelike::month` returns the month number,
/// 1 to 12.
#[verifier::external_body]
pub(crate) fn ts_month(ts: i64) -> (r: u32)
    requires
        0 <= ts <= TS_MAX,
    ensures
        r == month_of(ts),
        1 <= r <= 12,
{
    chrono::Datelike::month(&chrono::DateTime::from_timestamp(ts, 0).unwrap())
}

/// Relies on chrono: `DateTime::from_timestamp` is `Some` for every second of
/// years 1970 to 9999, and `Datelike::day` returns the day of month, 1 to 31.
#[verifier::external_body]
pub(crate) fn ts_day(ts: i64) -> (r: u32)
    requires
        0 <= ts <= TS_MAX,
    ensures
        r == day_of(ts),
        1 <= r <= 31,
{
    chrono::Datelike::day(&chrono::DateTime::from_timestamp(ts, 0).unwrap())
}

/// Relies on chrono: `DateTime::from_timestamp` is `Some` for every second of
/// years 1970 to 9999, and `Datelike::year` returns the calendar year, which
/// for such a timestamp lies between 1970 and 9999.
#[verifier::external_body]
pub(crate) fn ts_year(ts: i64) -> (r: i32)
    requires
        0 <= ts <= TS_MAX,
    ensures
        r == year_of(ts),
        1970 <= r <= 9999,
{
    chrono::Datelike::year(&chrono::DateTime::from_timestamp(ts, 0).unwrap())
}

/// Relies on chrono: `TimeZone::with_ymd_and_hms` on `Utc` yields exactly the
/// UTC date-time of the given calendar day at midnight, refusing only invalid
/// input data, so any day 1 to 28 of a month 1 to 12 of years 1970 to 9999 is
/// accepted; `timestamp` returns its Unix timestamp.
#[verifier::external_body]
pub(crate) fn civil_start(year: i32, month: u32, day: u32) -> (r: Option<i64>)
    ensures
        r matches Some(t) ==> t == civil_ts(year, month, day),
        1970 <= year <= 9999 && 1 <= month <= 12 && 1 <= day <= 28 ==> r is Some,
{
    chrono::TimeZone::with_ymd_and_hms(&chrono::Utc, year, month, day, 0, 0, 0)
        .single()
        .map(|dt| dt.timestamp())
}

/// Relies on chrono's `Utc::now` for the wall clock; nothing is promised of
/// the value it reads.
#[verifier::external_body]
pub(crate) fn now_raw() -> i64 {
    chrono::Utc::now().timestamp()
}

/// The current Unix time, clamped into the range this crate's records keep.
pub fn now_ts() -> (r: i64)
    ensures
        0 <= r <= TS_MAX,
{
    let t = now_raw();
    if t < 0 {
        0
    } else if t > TS_MAX {
        TS_MAX
    } else {
        t
    }
}

} // verus!
