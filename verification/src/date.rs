//! Calendar dates and instants as plain numbers.
//!
//! The calendar itself (parsing a written date, reading the clock) is left to
//! `chrono`; the library keeps what it reads from a date: year, month and day.

use chrono::Datelike;
use crate::text::{append, decimal, write_zero_padded, zero_padded};
use vstd::prelude::*;

verus! {

/// A calendar date without a time component.
#[derive(Clone, Copy, Debug, PartialEq, Eq, Structural)]
pub struct Date {
    pub year: i32,
    pub month: u32,
    pub day: u32,
}

impl Date {
    /// Month and day lie in the ranges of the calendar.
    pub open spec fn is_valid(&self) -> bool {
        1 <= self.month <= 12 && 1 <= self.day <= 31
    }

    /// `self` is the same day as `other` or an earlier one.
    pub open spec fn not_after(&self, other: &Date) -> bool {
        self.year < other.year || (self.year == other.year && (self.month < other.month || (
        self.month == other.month && self.day <= other.day)))
    }

    /// A number that orders dates as the calendar does: first by year,
    /// then by month, then by day.
    pub open spec fn ordinal(&self) -> int {
        self.year * 0x1_0000_0000_0000_0000 + self.month * 0x1_0000_0000 + self.day
    }

    /// The date's `ordinal`.
    pub fn sort_key(&self) -> (k: i128)
        ensures
            k == self.ordinal(),
    {
        (self.year as i128) * 0x1_0000_0000_0000_0000 + (self.month as i128) * 0x1_0000_0000 + (
        self.day as i128)
    }

    /// The ordinals stand in the order of their dates, and only equal dates
    /// have equal ordinals.
    pub proof fn lemma_ordinal(a: Date, b: Date)
        ensures
            a.ordinal() <= b.ordinal() <==> a.not_after(&b),
            a.ordinal() == b.ordinal() <==> a == b,
    {
    }

    /// Writes the date as year, month and day between dashes, the year with
    /// four digits and month and day with two. A year before 0 or after
    /// 9999 bears its sign.
    pub fn to_text(&self) -> (r: String)
        ensures
            r@ == date_text(*self),
    {
        proof {
            reveal_strlit("-");
            reveal_strlit("+");
            assert("-"@ =~= seq!['-']);
            assert("+"@ =~= seq!['+']);
        }
        let year = if 0 <= self.year && self.year <= 9999 {
            write_zero_padded(self.year as u64, 4)
        } else if self.year < 0 {
            let digits = write_zero_padded((-(self.year as i64)) as u64, 4);
            append("-", digits.as_str())
        } else {
            let digits = write_zero_padded(self.year as u64, 4);
            append("+", digits.as_str())
        };
        let month = write_zero_padded(self.month as u64, 2);
        let day = write_zero_padded(self.day as u64, 2);
        let a = append(year.as_str(), "-");
        let b = append(a.as_str(), month.as_str());
        let c = append(b.as_str(), "-");
        append(c.as_str(), day.as_str())
    }

    /// Reads a date written in `format`, a `chrono` format string.
    /// Returns `None` where the text is not a date in that format.
    pub fn parse(text: &str, format: &str) -> (r: Option<Date>)
        ensures
            r == date_of_fields(parsed_date(text@, format@)),
            r matches Some(d) ==> d.is_valid(),
    {
        match parse_date_fields(text, format) {
            Some(fields) => Some(Date { year: fields.0, month: fields.1, day: fields.2 }),
            None => None,
        }
    }

    /// The current day in the machine's time zone.
    pub fn today() -> (d: Date)
        ensures
            d.is_valid(),
    {
        let fields = local_today();
        Date { year: fields.0, month: fields.1, day: fields.2 }
    }
}

/// The year as a date is written with: four digits at least, and its sign
/// where it lies before 0 or after 9999.
pub open spec fn year_text(year: int) -> Seq<char> {
    if 0 <= year <= 9999 {
        zero_padded(decimal(year as nat), 4)
    } else if year < 0 {
        seq!['-'] + zero_padded(decimal((-year) as nat), 4)
    } else {
        seq!['+'] + zero_padded(decimal(year as nat), 4)
    }
}

/// The date written as year, month and day between dashes.
pub open spec fn date_text(date: Date) -> Seq<char> {
    year_text(date.year as int) + seq!['-'] + zero_padded(decimal(date.month as nat), 2) + seq![
        '-',
    ] + zero_padded(decimal(date.day as nat), 2)
}

/// Year, month and day that `chrono::NaiveDate::parse_from_str` reads from
/// `text` under `format`, or `None` where it reports an error.
pub uninterp spec fn parsed_date(text: Seq<char>, format: Seq<char>) -> Option<(i32, u32, u32)>;

/// The date with the given year, month and day.
pub open spec fn date_of_fields(fields: Option<(i32, u32, u32)>) -> Option<Date> {
    match fields {
        Some(f) => Some(Date { year: f.0, month: f.1, day: f.2 }),
        None => None,
    }
}

/// `chrono::NaiveDate::parse_from_str`, with the date taken apart by
/// `Datelike::year`, `month` and `day`. The result is the named one; a date
/// that comes back has its month in 1..=12 and its day in 1..=31, as
/// `Datelike` documents.
#[verifier::external_body]
fn parse_date_fields(text: &str, format: &str) -> (r: Option<(i32, u32, u32)>)
    ensures
        r == parsed_date(text@, format@),
        r matches Some(f) ==> 1 <= f.1 <= 12 && 1 <= f.2 <= 31,
{
    match chrono::NaiveDate::parse_from_str(text, format) {
        Ok(d) => Some((d.year(), d.month(), d.day())),
        Err(_) => None,
    }
}

/// `chrono::Local::now`, reduced to its date by `date_naive`. Which day
/// comes back depends on the clock; only the ranges of month and day are
/// claimed.
#[verifier::external_body]
fn local_today() -> (r: (i32, u32, u32))
    ensures
        1 <= r.1 <= 12,
        1 <= r.2 <= 31,
{
    let d = chrono::Local::now().date_naive();
    (d.year(), d.month(), d.day())
}

/// An instant: whole seconds since the Unix epoch and the nanoseconds
/// beyond them.
#[derive(Clone, Copy, Debug, PartialEq, Eq, Structural)]
pub struct Timestamp {
    pub secs: i64,
    pub nanos: u32,
}

/// Nanoseconds in a second.
pub const NANOS_PER_SECOND: i128 = 1_000_000_000;

/// Seconds in an hour.
pub const SECONDS_PER_HOUR: i128 = 3_600;

impl Timestamp {
    /// Nanoseconds since the Unix epoch.
    pub open spec fn total_nanos(&self) -> int {
        self.secs * NANOS_PER_SECOND + self.nanos
    }

    /// The current instant, by the machine's clock: a well-formed instant.
    pub fn now() -> (t: Timestamp)
        ensures
            t.is_valid(),
    {
        let parts = utc_now();
        Timestamp { secs: parts.0, nanos: parts.1 }
    }

    /// Whole hours from `earlier` to `self`, rounded towards zero.
    pub fn hours_since(&self, earlier: &Timestamp) -> (h: i128)
        ensures
            h == whole_hours(self.total_nanos() - earlier.total_nanos()),
    {
        let a: i128 = (self.secs as i128) * NANOS_PER_SECOND + (self.nanos as i128);
        let b: i128 = (earlier.secs as i128) * NANOS_PER_SECOND + (earlier.nanos as i128);
        let elapsed: i128 = a - b;
        let per_hour: i128 = NANOS_PER_SECOND * SECONDS_PER_HOUR;
        if elapsed >= 0 {
            elapsed / per_hour
        } else {
            -((-elapsed) / per_hour)
        }
    }

    /// The instant is well formed: its nanoseconds lie below
    /// `MAX_SUBSEC_NANOS`. They pass a full second only within a leap
    /// second, which is counted onto the second before it.
    pub open spec fn is_valid(&self) -> bool {
        self.nanos < MAX_SUBSEC_NANOS
    }
}

/// The whole hours in a span of `nanos` nanoseconds, rounded towards zero.
pub open spec fn whole_hours(nanos: int) -> int {
    if nanos >= 0 {
        nanos / (NANOS_PER_SECOND * SECONDS_PER_HOUR)
    } else {
        -((-nanos) / (NANOS_PER_SECOND * SECONDS_PER_HOUR))
    }
}

/// What the nanoseconds of an instant stay below: two seconds' worth.
pub const MAX_SUBSEC_NANOS: u32 = 2_000_000_000;

/// `chrono::Utc::now`, taken apart by `timestamp` and
/// `timestamp_subsec_nanos`. Which instant comes back depends on the clock;
/// only the range of the nanoseconds is claimed, which `chrono` documents as
/// ending at 1,999,999,999. Where the clock stands before the Unix epoch
/// `chrono` does not return.
#[verifier::external_body]
fn utc_now() -> (r: (i64, u32))
    ensures
        r.1 < MAX_SUBSEC_NANOS,
{
    let t = chrono::Utc::now();
    (t.timestamp(), t.timestamp_subsec_nanos())
}

} // verus!
