//! Wall-clock time as Unix timestamps (whole seconds, UTC), and their text.
use vstd::prelude::*;

verus! {

/// The earliest timestamp that has a calendar date: -262143-01-01 00:00:00.
pub const MIN_TIMESTAMP: i64 = -8_334_601_228_800;

/// The latest timestamp that has a calendar date: 262142-12-31 23:59:59.
pub const MAX_TIMESTAMP: i64 = 8_210_266_876_799;

/// The UTC date and time of the timestamp `secs`, written
/// `YYYY-MM-DD HH:MM:SS`.
pub uninterp spec fn utc_text_of(secs: int) -> Seq<char>;

/// Relies on `chrono::DateTime::<Utc>::from_timestamp`, which yields a value
/// exactly on `MIN_TIMESTAMP..=MAX_TIMESTAMP` (the range of `NaiveDate`,
/// years `-262143..=262142`), and on formatting it with
/// `"%Y-%m-%d %H:%M:%S"`, whose text depends on the timestamp alone.
#[verifier::external_body]
pub(crate) fn utc_text(secs: i64) -> (r: Option<String>)
    ensures
        r is Some <==> MIN_TIMESTAMP <= secs <= MAX_TIMESTAMP,
        r is Some ==> r->0@ == utc_text_of(secs as int),
{
    match chrono::DateTime::from_timestamp(secs, 0) {
        Some(t) => Some(t.format("%Y-%m-%d %H:%M:%S").to_string()),
        None => None,
    }
}

/// Relies on `chrono::Utc::now`: the current time, in whole seconds since
/// the Unix epoch. It panics on a clock set before the epoch and builds its
/// value with `DateTime::from_timestamp(..).unwrap()`, so what it returns lies
/// in `0..=MAX_TIMESTAMP`; nothing more is promised of it.
#[verifier::external_body]
pub(crate) fn now_timestamp() -> (r: i64)
    ensures
        0 <= r <= MAX_TIMESTAMP,
{
    chrono::Utc::now().timestamp()
}

} // verus!
