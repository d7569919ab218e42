//! Naive calendar date-times, held as a count from the Unix epoch.
//!
//! The calendar itself is chrono's: parsing and formatting are done
//! there, and the contracts here only give those results a name.

use std::fmt::Write;
use vstd::prelude::*;

verus! {

/// The layout in which image metadata writes its date-times.
pub const EXIF_DATE_TIME_FORMAT: &'static str = "%Y:%m:%d %H:%M:%S";

/// A date and time of day without a time zone: whole seconds since
/// 1970-01-01 00:00:00 in the same naive calendar, and the nanoseconds
/// within that second (a billion or more only inside a leap second).
#[derive(Copy, Clone, PartialEq, Eq, Structural, Debug)]
pub struct Timestamp {
    pub secs: i64,
    pub nanos: u32,
}

/// Whether chrono can hold a date-time that lies `secs` seconds and
/// `nanos` nanoseconds after the epoch.
pub uninterp spec fn epoch_in_range(secs: i64, nanos: u32) -> bool;

/// What chrono reads out of `text` under the strftime pattern `format`:
/// the seconds and nanoseconds of the date-time, or `None` where the
/// text does not match.
pub uninterp spec fn parsed_date_time(text: Seq<char>, format: Seq<char>) -> Option<(i64, u32)>;

/// What chrono writes for the date-time at (`secs`, `nanos`) under the
/// strftime pattern `format`, or `None` where the date-time is out of
/// range or the pattern cannot be applied to a naive date-time.
pub uninterp spec fn formatted_date_time(secs: i64, nanos: u32, format: Seq<char>) -> Option<
    Seq<char>,
>;

/// The parse result as a `Timestamp`.
pub open spec fn parsed_timestamp(text: Seq<char>, format: Seq<char>) -> Option<Timestamp> {
    match parsed_date_time(text, format) {
        Some(at) => Some(Timestamp { secs: at.0, nanos: at.1 }),
        None => None,
    }
}

/// Calls `chrono::DateTime::from_timestamp`. Trusted: the call succeeds
/// exactly on the pairs named by `epoch_in_range`, and the date-time it
/// builds reads back as the same seconds and nanoseconds.
#[verifier::external_body]
pub(crate) fn timestamp_from_epoch(secs: i64, nanos: u32) -> (at: Option<Timestamp>)
    ensures
        at == if epoch_in_range(secs, nanos) {
            Some(Timestamp { secs, nanos })
        } else {
            None
        },
{
    chrono::DateTime::from_timestamp(secs, nanos).map(
        |moment| Timestamp { secs: moment.timestamp(), nanos: moment.timestamp_subsec_nanos() },
    )
}

/// Calls `chrono::NaiveDateTime::parse_from_str`. Trusted: the result is
/// the one named by `parsed_date_time`, a function of the two texts alone.
#[verifier::external_body]
pub(crate) fn parse_date_time(text: &str, format: &str) -> (at: Option<Timestamp>)
    ensures
        at == match parsed_date_time(text@, format@) {
            Some(found) => Some(Timestamp { secs: found.0, nanos: found.1 }),
            None => None,
        },
{
    match chrono::NaiveDateTime::parse_from_str(text, format) {
        Ok(moment) => Some(
            Timestamp {
                secs: moment.and_utc().timestamp(),
                nanos: moment.and_utc().timestamp_subsec_nanos(),
            },
        ),
        Err(_) => None,
    }
}

/// Calls `chrono::NaiveDateTime::format` and writes the result out.
/// Trusted: the text is the one named by `formatted_date_time`, a
/// function of the date-time and the pattern alone; a pattern that
/// chrono cannot apply gives `None` instead of a text.
#[verifier::external_body]
pub(crate) fn format_date_time(at: Timestamp, format: &str) -> (text: Option<String>)
    ensures
        match text {
            Some(t) => formatted_date_time(at.secs, at.nanos, format@) == Some(t@),
            None => formatted_date_time(at.secs, at.nanos, format@).is_none(),
        },
{
    let moment = chrono::DateTime::from_timestamp(at.secs, at.nanos)?.naive_utc();
    let mut text = String::new();
    write!(text, "{}", moment.format(format)).ok()?;
    Some(text)
}

impl Timestamp {
    /// The date-time that lies `secs` seconds and `nanos` nanoseconds
    /// after the epoch, where the calendar can hold it.
    pub fn from_epoch(secs: i64, nanos: u32) -> (at: Option<Timestamp>)
        ensures
            at == if epoch_in_range(secs, nanos) {
                Some(Timestamp { secs, nanos })
            } else {
                None
            },
    {
        timestamp_from_epoch(secs, nanos)
    }

    /// Reads a date-time written as `YYYY:MM:DD HH:MM:SS`.
    pub fn parse_exif(text: &str) -> (at: Option<Timestamp>)
        ensures
            at == parsed_timestamp(text@, EXIF_DATE_TIME_FORMAT@),
    {
        parse_date_time(text, EXIF_DATE_TIME_FORMAT)
    }

    /// Writes the date-time under a strftime pattern.
    pub fn format(&self, format: &str) -> (text: Option<String>)
        ensures
            match text {
                Some(t) => formatted_date_time(self.secs, self.nanos, format@) == Some(t@),
                None => formatted_date_time(self.secs, self.nanos, format@).is_none(),
            },
    {
        format_date_time(*self, format)
    }
}

} // verus!
