//! Decoding a Unix timestamp into a civil date.
//!
//! The binary reads the system clock as seconds since the Unix epoch and
//! hands the number in here; everything downstream takes the resulting
//! `Date` as an argument, so the chart pipeline is verified for any date
//! this decoding can produce. Seconds outside the representable range
//! are reported as an error, never a panic.

use crate::date::Date;
use crate::error::FetchError;
use chrono::Datelike;
use vstd::prelude::*;

verus! {

/// The civil (proleptic Gregorian, UTC) year, month and day of a Unix
/// timestamp, as chrono computes them.
pub uninterp spec fn civil_ymd_of(secs: int) -> (int, int, int);

/// Relies on `chrono::DateTime::<Utc>::from_timestamp` and chrono's
/// `Datelike` accessors: the result depends on the seconds alone; a
/// `DateTime` always holds a real proleptic Gregorian date with 1-based
/// month and day; chrono's calendar spans years -262143..=262142, so
/// every timestamp within 8e12 seconds of the epoch (about 253000
/// years) decodes to `Some`; seconds beyond the calendar give `None`
/// rather than a panic.
#[verifier::external_body]
fn chrono_date_from_timestamp(secs: i64) -> (r: Option<Date>)
    ensures
        match r {
            Some(d) => {
                &&& (d.year as int, d.month as int, d.day as int) == civil_ymd_of(secs as int)
                &&& d.valid()
                &&& -300000 <= d.year <= 300000
            },
            None => true,
        },
        -8_000_000_000_000 <= secs <= 8_000_000_000_000 ==> r is Some,
{
    chrono::DateTime::<chrono::Utc>::from_timestamp(secs, 0).map(|t| Date {
        year: t.year(),
        month: t.month(),
        day: t.day(),
    })
}

/// The civil date of a Unix timestamp (seconds since the epoch, in
/// UTC). A date is owed for every timestamp within 8e12 seconds of the
/// epoch; only seconds that no representable date matches are an error.
pub fn date_from_unix_seconds(secs: i64) -> (r: Result<Date, FetchError>)
    ensures
        match r {
            Ok(d) => {
                &&& (d.year as int, d.month as int, d.day as int) == civil_ymd_of(secs as int)
                &&& d.valid()
                &&& -300000 <= d.year <= 300000
            },
            Err(e) => e == FetchError::TimestampOutOfRange,
        },
        -8_000_000_000_000 <= secs <= 8_000_000_000_000 ==> r is Ok,
{
    match chrono_date_from_timestamp(secs) {
        Some(d) => Ok(d),
        None => Err(FetchError::TimestampOutOfRange),
    }
}

} // verus!
