//! Points in time: reading the clock, writing and reading stamps, and how old is too old.

use crate::reading::is_clock_reading;
use crate::text::text_le;
use chrono::{DateTime, Duration, Utc};
use vstd::prelude::*;

verus! {

/// The first second that `chrono::DateTime<Utc>` can hold.
pub const MIN_UTC_SECS: i64 = -8_334_601_228_800;

/// The last second that `chrono::DateTime<Utc>` can hold.
pub const MAX_UTC_SECS: i64 = 8_210_266_876_799;

/// The first second of the year 10000, from which on years take more than four digits.
pub const FIVE_DIGIT_YEAR_SECS: i64 = 253_402_300_800;

/// Nanoseconds in a second.
pub const NANOS_PER_SEC: u32 = 1_000_000_000;

/// A point in time, in UTC: whole seconds since 1970 and the nanoseconds past them. Within a leap
/// second `secs` stays on the second before it and `nanos` runs on past one second.
#[derive(Clone, Copy)]
pub struct UtcTime {
    pub secs: i64,
    pub nanos: u32,
}

impl UtcTime {
    /// A time that the clock can show: from 1970 on and outside leap seconds.
    pub open spec fn is_clock_time(self) -> bool {
        0 <= self.secs <= MAX_UTC_SECS && self.nanos < NANOS_PER_SEC
    }

    /// A time that was read from the system clock.
    pub open spec fn shown_by_clock(self) -> bool {
        is_clock_reading(self.secs, self.nanos)
    }

    /// A clock time whose year has four digits.
    pub open spec fn has_four_digit_year(self) -> bool {
        self.is_clock_time() && self.secs < FIVE_DIGIT_YEAR_SECS
    }

    /// `self` comes before `other`.
    pub open spec fn earlier_than(self, other: UtcTime) -> bool {
        self.secs < other.secs || (self.secs == other.secs && self.nanos < other.nanos)
    }

    /// `self` moved back by whole seconds.
    pub open spec fn minus_secs(self, secs: int) -> UtcTime {
        UtcTime { secs: (self.secs - secs) as i64, nanos: self.nanos }
    }

    /// The stamp written for `self`.
    pub open spec fn stamp(self) -> Seq<char> {
        rfc3339_text(self.secs, self.nanos)
    }

    /// Whether `self` comes before `other`.
    pub fn is_earlier_than(self, other: UtcTime) -> (r: bool)
        ensures
            r == self.earlier_than(other),
            r == (self.secs < other.secs || (self.secs == other.secs && self.nanos < other.nanos)),
    {
        self.secs < other.secs || (self.secs == other.secs && self.nanos < other.nanos)
    }
}

/// `Utc::now`, split by `timestamp` and `timestamp_subsec_nanos`: the time of the system clock.
/// Claimed of every reading: it is not before 1970 (`now` does not return for a clock before it),
/// not past the last second that `DateTime` can hold, and the nanoseconds stay below one second. It
/// is a reading of the clock in the sense of `is_clock_reading`, which says no more than that.
#[verifier::external_body]
fn utc_now() -> (r: (i64, u32))
    ensures
        0 <= r.0 <= MAX_UTC_SECS,
        r.1 < NANOS_PER_SEC,
        is_clock_reading(r.0, r.1),
{
    let now = Utc::now();
    (now.timestamp(), now.timestamp_subsec_nanos())
}

/// What `DateTime::parse_from_rfc3339` reads from `text`: the seconds and nanoseconds of the
/// point in time, or nothing where the text is refused.
pub uninterp spec fn rfc3339_time(text: Seq<char>) -> Option<(i64, u32)>;

/// `DateTime::parse_from_rfc3339`, moved to UTC and split by `timestamp` and
/// `timestamp_subsec_nanos`. Which texts are accepted, and what they stand for, is the named
/// `rfc3339_time(text@)`.
#[verifier::external_body]
fn parse_rfc3339(text: &str) -> (r: Option<(i64, u32)>)
    ensures
        r == rfc3339_time(text@),
{
    match DateTime::parse_from_rfc3339(text) {
        Ok(value) => {
            let utc = value.with_timezone(&Utc);
            Some((utc.timestamp(), utc.timestamp_subsec_nanos()))
        },
        Err(_) => None,
    }
}

/// What `DateTime::<Utc>::to_rfc3339` writes for a point in time.
pub uninterp spec fn rfc3339_text(secs: i64, nanos: u32) -> Seq<char>;

/// `DateTime::<Utc>::to_rfc3339` of the time with these seconds and nanoseconds. The text is the
/// named `rfc3339_text(secs, nanos)`. Claimed besides, of years with four digits: the text reads
/// back as the time it was written for, and two such texts sort as their times do (every field has
/// a fixed width but the fraction, which is left out when zero and otherwise cut only where zeros
/// follow, and both `.` and the digits sort after the `+` that ends it).
#[verifier::external_body]
fn write_rfc3339(secs: i64, nanos: u32) -> (r: String)
    requires
        (UtcTime { secs, nanos }).is_clock_time(),
    ensures
        r@ == rfc3339_text(secs, nanos),
        secs < FIVE_DIGIT_YEAR_SECS ==> rfc3339_time(r@) == Some((secs, nanos)),
        secs < FIVE_DIGIT_YEAR_SECS ==> forall|other: UtcTime|
            other.has_four_digit_year() ==> (#[trigger] text_le(other.stamp(), r@)
                <==> !(UtcTime { secs, nanos }).earlier_than(other)),
{
    DateTime::from_timestamp(secs, nanos).unwrap().to_rfc3339()
}

/// `DateTime::<Utc>::timestamp_millis` of the time with these seconds and nanoseconds: the whole
/// milliseconds since 1970.
#[verifier::external_body]
fn timestamp_millis(secs: i64, nanos: u32) -> (r: i64)
    requires
        (UtcTime { secs, nanos }).is_clock_time(),
    ensures
        r == secs * 1000 + nanos / 1_000_000,
{
    DateTime::from_timestamp(secs, nanos).unwrap().timestamp_millis()
}

/// `DateTime<Utc> - Duration::minutes(minutes)`: the point in time so many minutes earlier. The
/// subtraction leaves the fraction of the second as it is.
#[verifier::external_body]
fn sub_minutes(secs: i64, nanos: u32, minutes: i64) -> (r: (i64, u32))
    requires
        (UtcTime { secs, nanos }).is_clock_time(),
        minutes >= 0,
        secs - minutes * 60 >= MIN_UTC_SECS,
    ensures
        r.0 == secs - minutes * 60,
        r.1 == nanos,
{
    let earlier = DateTime::from_timestamp(secs, nanos).unwrap() - Duration::minutes(minutes);
    (earlier.timestamp(), earlier.timestamp_subsec_nanos())
}

/// `DateTime<Utc> - Duration::hours(hours)`: the point in time so many hours earlier. The
/// subtraction leaves the fraction of the second as it is.
#[verifier::external_body]
fn sub_hours(secs: i64, nanos: u32, hours: i64) -> (r: (i64, u32))
    requires
        (UtcTime { secs, nanos }).is_clock_time(),
        hours >= 0,
        secs - hours * 3600 >= MIN_UTC_SECS,
    ensures
        r.0 == secs - hours * 3600,
        r.1 == nanos,
{
    let earlier = DateTime::from_timestamp(secs, nanos).unwrap() - Duration::hours(hours);
    (earlier.timestamp(), earlier.timestamp_subsec_nanos())
}

/// The `strftime` pattern of an export folder's name.
pub const FOLDER_PATTERN: &'static str = "%Y-%m-%d-%H%M%S";

/// What `DateTime::<Utc>::format` writes for a point in time and a pattern.
pub uninterp spec fn formatted_text(secs: i64, nanos: u32, pattern: Seq<char>) -> Seq<char>;

/// `DateTime::<Utc>::format` of the time with these seconds and nanoseconds, for the one pattern
/// that is known to be valid. The text is the named `formatted_text(secs, nanos, pattern@)`.
/// Claimed besides, of years with four digits: the text is the fourteen digits of the date and time
/// and the three dashes of the pattern.
#[verifier::external_body]
fn format_utc(secs: i64, nanos: u32, pattern: &str) -> (r: String)
    requires
        (UtcTime { secs, nanos }).is_clock_time(),
        pattern@ == FOLDER_PATTERN@,
    ensures
        r@ == formatted_text(secs, nanos, pattern@),
        secs < FIVE_DIGIT_YEAR_SECS ==> r@.len() == 17 && forall|i: int|
            0 <= i < 17 ==> #[trigger] r@[i] == '-' || crate::text::is_digit(r@[i]),
{
    DateTime::from_timestamp(secs, nanos).unwrap().format(pattern).to_string()
}

/// Reads the system clock.
pub fn current_time() -> (now: UtcTime)
    ensures
        now.is_clock_time(),
        now.shown_by_clock(),
{
    let (secs, nanos) = utc_now();
    UtcTime { secs, nanos }
}

/// The time that a stamp stands for, if it is one.
pub fn parse_stamp(text: &str) -> (r: Option<UtcTime>)
    ensures
        r == stamp_time(text@),
        match rfc3339_time(text@) {
            Some((secs, nanos)) => r matches Some(at) && at.secs == secs && at.nanos == nanos,
            None => r is None,
        },
{
    match parse_rfc3339(text) {
        Some((secs, nanos)) => Some(UtcTime { secs, nanos }),
        None => None,
    }
}

/// The time that a stamp stands for, if it is one.
pub open spec fn stamp_time(text: Seq<char>) -> Option<UtcTime> {
    match rfc3339_time(text) {
        Some((secs, nanos)) => Some(UtcTime { secs, nanos }),
        None => None,
    }
}

/// The stamp of `at`.
pub fn write_stamp(at: UtcTime) -> (r: String)
    requires
        at.is_clock_time(),
    ensures
        r@ == at.stamp(),
        r@ == rfc3339_text(at.secs, at.nanos),
        at.has_four_digit_year() ==> stamp_time(r@) == Some(at),
        at.has_four_digit_year() ==> forall|other: UtcTime|
            other.has_four_digit_year() ==> (#[trigger] text_le(other.stamp(), r@)
                <==> !at.earlier_than(other)),
{
    write_rfc3339(at.secs, at.nanos)
}

/// The stamp of the present moment.
pub fn now_iso() -> (r: String)
    ensures
        exists|now: UtcTime|
            now.shown_by_clock() && now.is_clock_time() && r@ == #[trigger] now.stamp() && (
            now.has_four_digit_year()
                ==> stamp_time(r@) == Some(now)),
{
    let now = current_time();
    let r = write_stamp(now);
    assert(r@ == now.stamp());
    r
}

/// Whole milliseconds from 1970 to `at`.
pub open spec fn millis_of(at: UtcTime) -> int {
    at.secs * 1000 + at.nanos / 1_000_000
}

/// Whole milliseconds from 1970 to `at`.
pub fn clock_millis(at: UtcTime) -> (r: u64)
    requires
        at.is_clock_time(),
    ensures
        r == millis_of(at),
        r == at.secs * 1000 + at.nanos / 1_000_000,
{
    timestamp_millis(at.secs, at.nanos) as u64
}

/// The point in time `minutes` before `at`.
pub fn minutes_before(at: UtcTime, minutes: u64) -> (r: UtcTime)
    requires
        at.is_clock_time(),
        at.secs - minutes * 60 >= MIN_UTC_SECS,
    ensures
        r == at.minus_secs(minutes * 60),
        r.secs == at.secs - minutes * 60,
        r.nanos == at.nanos,
{
    let (secs, nanos) = sub_minutes(at.secs, at.nanos, minutes as i64);
    UtcTime { secs, nanos }
}

/// The point in time `hours` before `at`.
pub fn hours_before(at: UtcTime, hours: u32) -> (r: UtcTime)
    requires
        at.is_clock_time(),
        at.secs - hours * 3600 >= MIN_UTC_SECS,
    ensures
        r == at.minus_secs(hours * 3600),
        r.secs == at.secs - hours * 3600,
        r.nanos == at.nanos,
{
    let (secs, nanos) = sub_hours(at.secs, at.nanos, hours as i64);
    UtcTime { secs, nanos }
}

/// The name of the folder for an export made at `at`.
pub fn folder_stamp(at: UtcTime) -> (r: String)
    requires
        at.is_clock_time(),
    ensures
        r@ == formatted_text(at.secs, at.nanos, FOLDER_PATTERN@),
        at.has_four_digit_year() ==> r@.len() == 17 && forall|i: int|
            0 <= i < 17 ==> #[trigger] r@[i] == '-' || crate::text::is_digit(r@[i]),
{
    format_utc(at.secs, at.nanos, FOLDER_PATTERN)
}

/// What is dated `time` is kept by a cutoff: it is not older, or its date could not be read.
pub open spec fn survives(time: Option<UtcTime>, cutoff: UtcTime) -> bool {
    match time {
        Some(time) => !time.earlier_than(cutoff),
        None => true,
    }
}

/// Whether what is dated `time` is kept by `cutoff`. What has no readable date is kept.
pub fn is_kept(time: Option<UtcTime>, cutoff: UtcTime) -> (r: bool)
    ensures
        r == survives(time, cutoff),
        r <==> (time matches Some(at) ==> at.secs > cutoff.secs || (at.secs == cutoff.secs
            && at.nanos >= cutoff.nanos)),
{
    match time {
        Some(time) => !time.is_earlier_than(cutoff),
        None => true,
    }
}

/// Whether what carries the stamp `text` is kept by `cutoff`.
pub fn stamp_is_kept(text: &str, cutoff: UtcTime) -> (r: bool)
    ensures
        r == survives(stamp_time(text@), cutoff),
{
    is_kept(parse_stamp(text), cutoff)
}

/// Moving the cutoff back never drops anything.
pub proof fn earlier_cutoff_keeps_more(time: Option<UtcTime>, cutoff: UtcTime, earlier: UtcTime)
    requires
        !cutoff.earlier_than(earlier),
        survives(time, cutoff),
    ensures
        survives(time, earlier),
{
}

/// A cutoff keeps what is dated at or after it and what has no readable date, and drops the rest.
pub proof fn cutoff_drops_exactly_what_is_older(time: Option<UtcTime>, cutoff: UtcTime)
    ensures
        survives(time, cutoff) <==> (time matches Some(at) ==> at.secs > cutoff.secs || (at.secs
            == cutoff.secs && at.nanos >= cutoff.nanos)),
{
}

/// Of two times outside leap seconds, the earlier one has fewer nanoseconds since 1970.
pub proof fn earlier_means_fewer_nanoseconds(a: UtcTime, b: UtcTime)
    requires
        a.nanos < NANOS_PER_SEC,
        b.nanos < NANOS_PER_SEC,
    ensures
        a.earlier_than(b) <==> a.secs * 1_000_000_000 + a.nanos < b.secs * 1_000_000_000 + b.nanos,
{
}

/// Any two times are in order, and only a time and itself are both.
pub proof fn times_are_in_order(a: UtcTime, b: UtcTime)
    ensures
        a.earlier_than(b) || b.earlier_than(a) || a == b,
        !(a.earlier_than(b) && b.earlier_than(a)),
        !a.earlier_than(a),
{
}

/// A stamp stands for what is read from it, and for nothing where it is refused.
pub proof fn stamp_stands_for_what_is_read(text: Seq<char>, at: UtcTime)
    ensures
        stamp_time(text) == Some(at) <==> rfc3339_time(text) == Some((at.secs, at.nanos)),
        stamp_time(text) is None <==> rfc3339_time(text) is None,
{
}

/// Moving a time back by whole seconds changes the seconds by so many and leaves the fraction.
pub proof fn moving_back_takes_seconds_off(at: UtcTime, secs: int)
    requires
        i64::MIN <= at.secs - secs <= i64::MAX,
    ensures
        at.minus_secs(secs).secs == at.secs - secs,
        at.minus_secs(secs).nanos == at.nanos,
{
}

/// Whole milliseconds, times a million, are the nanoseconds since 1970 but for less than a
/// millisecond.
pub proof fn milliseconds_are_whole(at: UtcTime)
    ensures
        0 <= at.secs * 1_000_000_000 + at.nanos - millis_of(at) * 1_000_000 < 1_000_000,
{
}

/// A clock time lies between 1970 and the end of the calendar, outside leap seconds; its year has four
/// digits until the end of 9999.
pub proof fn clock_times_are_these(at: UtcTime)
    ensures
        at.is_clock_time() <==> 0 <= at.secs <= 8_210_266_876_799 && at.nanos < 1_000_000_000,
        at.has_four_digit_year() <==> at.is_clock_time() && at.secs < 253_402_300_800,
        at.stamp() == rfc3339_text(at.secs, at.nanos),
        at.shown_by_clock() <==> is_clock_reading(at.secs, at.nanos),
{
}

} // verus!
