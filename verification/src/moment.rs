//! Points in time as they are stored and read back.
//!
//! Sessions are stored with their times written out as RFC 3339 text, and
//! reports read that text back. Writing, reading and taking the difference
//! of two calendar times is chrono's work; this module hands it plain
//! values and takes plain values back.

use vstd::prelude::*;

verus! {

/// A point in time: whole seconds since 1970-01-01T00:00:00Z and the
/// nanoseconds past that second. During a leap second the nanoseconds run
/// past one billion.
#[derive(Debug, Clone, Copy, PartialEq, Eq, Structural)]
pub struct Moment {
    pub secs: i64,
    pub nanos: u32,
}

/// The last millisecond of the year 9999.
pub const LAST_MILLI_OF_9999: i64 = 253_402_300_799_999;

impl Moment {
    /// The UTC calendar day the moment falls on, counted from 1970-01-01.
    pub open spec fn day_index(self) -> int {
        self.secs as int / 86_400
    }

    /// The UTC calendar day the moment falls on, counted from 1970-01-01.
    pub fn day(&self) -> (day: i64)
        ensures
            day == self.day_index(),
    {
        if self.secs >= 0 {
            self.secs / 86_400
        } else {
            let back: i64 = -(self.secs + 1);
            -(back / 86_400) - 1
        }
    }
}

/// A moment as it was written: the moment itself and the offset it was
/// written with, in seconds east of UTC.
#[derive(Debug, Clone, Copy, PartialEq, Eq, Structural)]
pub struct Stamp {
    pub moment: Moment,
    pub offset: i32,
}

impl Stamp {
    /// The calendar day the moment falls on where it was written, counted
    /// from 1970-01-01.
    pub open spec fn local_day_index(self) -> int {
        (self.moment.secs + self.offset) / 86_400
    }

    /// The calendar day the moment falls on where it was written, counted
    /// from 1970-01-01.
    pub fn local_day(&self) -> (day: i64)
        ensures
            day == self.local_day_index(),
    {
        let local: i128 = self.moment.secs as i128 + self.offset as i128;
        if local >= 0 {
            (local / 86_400) as i64
        } else {
            let back: i128 = -(local + 1);
            (-(back / 86_400) - 1) as i64
        }
    }
}

/// What `chrono::DateTime::parse_from_rfc3339` makes of a text: the moment
/// it denotes and the offset it was written with, or nothing if the text
/// is not an RFC 3339 date and time.
pub uninterp spec fn parsed_rfc3339(text: Seq<char>) -> Option<Stamp>;

/// What `chrono::TimeDelta::num_minutes` gives for the time from one
/// moment to another: the whole minutes between them, rounded towards
/// zero and negative if the second moment is the earlier one; nothing if
/// chrono cannot represent one of the two moments.
pub uninterp spec fn whole_minutes(start: Moment, end: Moment) -> Option<i64>;

/// What `chrono::DateTime::to_rfc3339` writes for the moment so many
/// milliseconds after the epoch, or nothing if chrono cannot represent it.
pub uninterp spec fn rfc3339_of_millis(millis: int) -> Option<Seq<char>>;

/// Whether `chrono::DateTime::from_timestamp` accepts the second.
pub uninterp spec fn representable_seconds(secs: int) -> bool;

/// Reads an RFC 3339 date and time with
/// `chrono::DateTime::parse_from_rfc3339` and returns the moment it
/// denotes together with the offset it was written with. The result is a
/// function of the text alone; nothing else is claimed of it.
#[verifier::external_body]
pub(crate) fn parse_rfc3339(text: &str) -> (stamp: Option<Stamp>)
    ensures
        stamp == parsed_rfc3339(text@),
{
    match chrono::DateTime::parse_from_rfc3339(text) {
        Ok(parsed) => Some(
            Stamp {
                moment: Moment {
                    secs: parsed.timestamp(),
                    nanos: parsed.timestamp_subsec_nanos(),
                },
                offset: parsed.offset().local_minus_utc(),
            },
        ),
        Err(_) => None,
    }
}

/// The whole minutes from `start` to `end`, taken with
/// `chrono::DateTime::signed_duration_since` and
/// `chrono::TimeDelta::num_minutes` on the two moments rebuilt by
/// `chrono::DateTime::from_timestamp`. The result is a function of the two
/// moments alone; nothing else is claimed of it.
#[verifier::external_body]
pub(crate) fn minutes_between(start: Moment, end: Moment) -> (minutes: Option<i64>)
    ensures
        minutes == whole_minutes(start, end),
{
    let from = chrono::DateTime::from_timestamp(start.secs, start.nanos)?;
    let to = chrono::DateTime::from_timestamp(end.secs, end.nanos)?;
    Some(to.signed_duration_since(from).num_minutes())
}

/// Writes the moment `millis` milliseconds after the epoch with
/// `chrono::DateTime::to_rfc3339`, after building it with
/// `chrono::DateTime::from_timestamp_millis`. The text is a function of
/// `millis` alone. Building fails only for moments outside chrono's range
/// of years, which reaches far beyond the year 9999, so every moment from
/// the epoch to the end of that year is written.
#[verifier::external_body]
pub(crate) fn rfc3339_text(millis: i64) -> (text: Option<String>)
    ensures
        match text {
            Some(t) => rfc3339_of_millis(millis as int) == Some(t@),
            None => rfc3339_of_millis(millis as int) is None,
        },
        0 <= millis <= LAST_MILLI_OF_9999 ==> text is Some,
{
    match chrono::DateTime::from_timestamp_millis(millis) {
        Some(moment) => Some(moment.to_rfc3339()),
        None => None,
    }
}

/// Whether `chrono::DateTime::from_timestamp` accepts `secs` with no
/// nanoseconds. The answer is a function of `secs` alone.
#[verifier::external_body]
pub(crate) fn is_representable(secs: i64) -> (accepted: bool)
    ensures
        accepted == representable_seconds(secs as int),
{
    chrono::DateTime::from_timestamp(secs, 0).is_some()
}

} // verus!
