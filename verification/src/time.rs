//! Instants and calendar dates, as plain numbers, and their reading from text.

use vstd::prelude::*;

verus! {

/// An instant with the offset it was written with.
#[derive(Clone, Copy, Debug, PartialEq, Eq, Structural)]
pub struct Timestamp {
    /// Whole seconds since 1970-01-01T00:00:00Z; negative before it.
    pub seconds: i64,
    /// Nanoseconds past `seconds`. A leap second counts on past 999_999_999.
    pub nanos: u32,
    /// What local time is ahead of UTC, in seconds; negative to the west.
    pub offset: i32,
}

/// A calendar date without a time zone.
#[derive(Clone, Copy, Debug, PartialEq, Eq, Structural)]
pub struct Date {
    pub year: i32,
    /// 1 for January.
    pub month: u32,
    /// Counted from 1.
    pub day: u32,
}

/// The instant that `chrono::DateTime::parse_from_rfc3339` reads from `text`,
/// or `None` where it refuses `text`.
pub uninterp spec fn rfc3339_instant(text: Seq<char>) -> Option<Timestamp>;

/// The date that `chrono::NaiveDate::parse_from_str` reads from `text` under
/// the pattern `%Y-%m-%d`, or `None` where it refuses `text`.
pub uninterp spec fn ymd_date(text: Seq<char>) -> Option<Date>;

/// Calls `chrono::DateTime::parse_from_rfc3339` and takes the instant apart
/// into seconds since the epoch, nanoseconds and offset. The contract claims
/// only that the outcome is a function of the text: [`rfc3339_instant`].
#[verifier::external_body]
pub(crate) fn parse_rfc3339(text: &str) -> (r: Option<Timestamp>)
    ensures
        r == rfc3339_instant(text@),
{
    match chrono::DateTime::parse_from_rfc3339(text) {
        Ok(t) => Some(
            Timestamp {
                seconds: t.timestamp(),
                nanos: t.timestamp_subsec_nanos(),
                offset: t.offset().local_minus_utc(),
            },
        ),
        Err(_) => None,
    }
}

/// Calls `chrono::NaiveDate::parse_from_str` with the pattern `%Y-%m-%d` and
/// takes the date apart into year, month and day. The contract claims only
/// that the outcome is a function of the text: [`ymd_date`].
#[verifier::external_body]
pub(crate) fn parse_ymd(text: &str) -> (r: Option<Date>)
    ensures
        r == ymd_date(text@),
{
    match chrono::NaiveDate::parse_from_str(text, "%Y-%m-%d") {
        Ok(d) => Some(
            Date {
                year: chrono::Datelike::year(&d),
                month: chrono::Datelike::month(&d),
                day: chrono::Datelike::day(&d),
            },
        ),
        Err(_) => None,
    }
}

} // verus!
