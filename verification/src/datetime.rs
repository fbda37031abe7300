//! Points in time with a fixed offset from UTC.

use vstd::prelude::*;
use std::fmt::Write;
use core::cmp::Ordering;
use vstd::std_specs::cmp::{PartialEqSpecImpl, PartialOrdSpecImpl};

verus! {

/// A point in time, together with the offset from UTC in which it was
/// written. Two values are equal, and are ordered, by the point in time
/// alone.
#[derive(Clone, Copy, Debug)]
pub struct DateTime {
    timestamp: i64,
    nanos: u32,
    offset: i32,
}

/// What `chrono::DateTime::parse_from_rfc3339` returns for a string with the
/// characters `s`: `None` where it fails, else the point in time and the
/// offset that it parsed.
pub uninterp spec fn rfc3339(s: Seq<char>) -> Option<DateTime>;

/// `chrono::DateTime::parse_from_rfc3339`. A date that it parses is kept as
/// its `timestamp`, its `timestamp_subsec_nanos` and the `local_minus_utc` of
/// its offset; the result is named by [`rfc3339`].
#[verifier::external_body]
fn parse_rfc3339(s: &str) -> (parsed: Option<DateTime>)
    ensures
        parsed == rfc3339(s@),
{
    match chrono::DateTime::parse_from_rfc3339(s) {
        Ok(date) => Some(
            DateTime {
                timestamp: date.timestamp(),
                nanos: date.timestamp_subsec_nanos(),
                offset: date.offset().local_minus_utc(),
            },
        ),
        Err(_) => None,
    }
}

/// What the `Display` of `chrono::DateTime::format` writes for `date` and
/// the `strftime` pattern `format`; `None` where chrono cannot hold the date
/// or the pattern is not valid.
pub uninterp spec fn formatted_date(date: DateTime, format: Seq<char>) -> Option<Seq<char>>;

/// `chrono::DateTime::format`, on the date that `from_timestamp` and
/// `FixedOffset::east_opt` make of the three numbers, written out through
/// `Display`. The text is named by [`formatted_date`].
#[verifier::external_body]
fn chrono_format(date: &DateTime, format: &str) -> (text: Option<String>)
    ensures
        match text {
            Some(t) => formatted_date(*date, format@) == Some(t@),
            None => formatted_date(*date, format@) is None,
        },
{
    let utc = chrono::DateTime::from_timestamp(date.timestamp, date.nanos)?;
    let local = utc.with_timezone(&chrono::FixedOffset::east_opt(date.offset)?);
    let mut text = String::new();
    write!(&mut text, "{}", local.format(format)).ok()?;
    Some(text)
}

impl DateTime {
    /// The seconds since the start of 1970 in UTC, leap seconds not counted.
    pub closed spec fn seconds(self) -> int {
        self.timestamp as int
    }

    /// The nanoseconds since the last full second.
    pub closed spec fn subsec_nanos(self) -> int {
        self.nanos as int
    }

    /// The seconds that the local time is ahead of UTC.
    pub closed spec fn utc_offset(self) -> int {
        self.offset as int
    }

    /// Whether `self` is an earlier point in time than `other`.
    pub open spec fn before(self, other: DateTime) -> bool {
        self.seconds() < other.seconds() || (self.seconds() == other.seconds()
            && self.subsec_nanos() < other.subsec_nanos())
    }

    /// Whether `self` and `other` are the same point in time.
    pub open spec fn same_instant(self, other: DateTime) -> bool {
        self.seconds() == other.seconds() && self.subsec_nanos() == other.subsec_nanos()
    }

    /// The point in time `timestamp` seconds and `nanos` nanoseconds after
    /// the start of 1970 in UTC, written with an offset of `offset` seconds.
    pub fn new(timestamp: i64, nanos: u32, offset: i32) -> (date: DateTime)
        ensures
            date.seconds() == timestamp,
            date.subsec_nanos() == nanos,
            date.utc_offset() == offset,
    {
        DateTime { timestamp, nanos, offset }
    }

    /// Parses an RFC 3339 date and time.
    pub fn from_string(s: &str) -> (date: Option<DateTime>)
        ensures
            date == rfc3339(s@),
    {
        parse_rfc3339(s)
    }

    /// The seconds since the start of 1970 in UTC, leap seconds not counted.
    pub fn timestamp(&self) -> (seconds: i64)
        ensures
            seconds == self.seconds(),
    {
        self.timestamp
    }

    /// The nanoseconds since the last full second.
    pub fn timestamp_subsec_nanos(&self) -> (nanos: u32)
        ensures
            nanos == self.subsec_nanos(),
    {
        self.nanos
    }

    /// The seconds that the local time is ahead of UTC.
    pub fn offset(&self) -> (offset: i32)
        ensures
            offset == self.utc_offset(),
    {
        self.offset
    }

    /// The date written as the `strftime` pattern `format` says; nothing
    /// where the pattern is not valid.
    pub fn format(&self, format: &str) -> (text: Option<String>)
        ensures
            match text {
                Some(t) => formatted_date(*self, format@) == Some(t@),
                None => formatted_date(*self, format@) is None,
            },
    {
        chrono_format(self, format)
    }

    /// Whether `self` is an earlier point in time than `other`.
    pub fn is_before(&self, other: &DateTime) -> (earlier: bool)
        ensures
            earlier == self.before(*other),
    {
        self.timestamp < other.timestamp || (self.timestamp == other.timestamp && self.nanos
            < other.nanos)
    }
}

impl PartialEq for DateTime {
    fn eq(&self, other: &DateTime) -> (equal: bool) {
        self.timestamp == other.timestamp && self.nanos == other.nanos
    }
}

impl PartialEqSpecImpl for DateTime {
    open spec fn obeys_eq_spec() -> bool {
        true
    }

    open spec fn eq_spec(&self, other: &DateTime) -> bool {
        self.same_instant(*other)
    }
}

impl PartialOrd for DateTime {
    fn partial_cmp(&self, other: &DateTime) -> (order: Option<Ordering>) {
        if self.is_before(other) {
            Some(Ordering::Less)
        } else if other.is_before(self) {
            Some(Ordering::Greater)
        } else {
            Some(Ordering::Equal)
        }
    }
}

impl PartialOrdSpecImpl for DateTime {
    open spec fn obeys_partial_cmp_spec() -> bool {
        true
    }

    open spec fn partial_cmp_spec(&self, other: &DateTime) -> Option<Ordering> {
        if self.before(*other) {
            Some(Ordering::Less)
        } else if other.before(*self) {
            Some(Ordering::Greater)
        } else {
            Some(Ordering::Equal)
        }
    }
}

impl Eq for DateTime {

}

} // verus!
