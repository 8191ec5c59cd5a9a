//! Temporal values exchanged with the database: dates, times of day, civil datetimes,
//! durations and zoned datetimes, their conversion to and from the numeric fields of the
//! wire format, and their text forms.
use vstd::prelude::*;
use vstd::std_specs::ops::AddSpec;
use vstd::utf8::{decode_utf8, encode_utf8, valid_utf8};

use crate::calendar::{
    civil_nanos, is_valid_date, is_valid_time, is_valid_timestamp, max_epoch_day,
    max_offset_seconds, max_timestamp_second, min_epoch_day, min_timestamp_second,
    time_of_day_nanos, unix_epoch_day,
};
use crate::error::MgError;
use crate::text::{
    contains_nul, decimal, digit_char, fraction_text, push_decimal, push_fraction,
    push_zero_padded, zero_pad, zeros,
};

use jiff::civil;
use jiff::tz::{Offset, TimeZone};
use jiff::{Span, Timestamp};

verus! {

// ---------------------------------------------------------------------------------------
// Integer helpers
// ---------------------------------------------------------------------------------------

/// Quotient of `a` by a positive `b`, rounded toward zero (as Rust's `/` on integers).
pub open spec fn trunc_div(a: int, b: int) -> int {
    if a >= 0 {
        a / b
    } else {
        -((-a) / b)
    }
}

/// Remainder of `a` by a positive `b` with the sign of `a` (as Rust's `%` on integers).
pub open spec fn trunc_rem(a: int, b: int) -> int {
    a - b * trunc_div(a, b)
}

pub open spec fn abs(a: int) -> int {
    if a < 0 {
        -a
    } else {
        a
    }
}

// ---------------------------------------------------------------------------------------
// Text forms
// ---------------------------------------------------------------------------------------

/// Two-digit zero-padded decimal text.
pub open spec fn two_digits(n: int) -> Seq<char> {
    zero_pad(decimal(n as nat), 2)
}

/// ISO 8601 text of a date: `YYYY-MM-DD`, with `-00` before the year when it is negative.
pub open spec fn date_text(y: int, m: int, d: int) -> Seq<char> {
    (if y < 0 {
        seq!['-', '0', '0']
    } else {
        Seq::<char>::empty()
    }) + zero_pad(decimal(abs(y) as nat), 4) + seq!['-'] + two_digits(m) + seq!['-']
        + two_digits(d)
}

/// Text of a time of day: `HH:MM:SS`, followed by `.` and the fractional digits when the
/// sub-second part is not zero.
pub open spec fn time_text(h: int, mi: int, s: int, ns: int) -> Seq<char> {
    two_digits(h) + seq![':'] + two_digits(mi) + seq![':'] + two_digits(s) + (if ns != 0 {
        seq!['.'] + fraction_text(ns as nat)
    } else {
        Seq::<char>::empty()
    })
}

// ---------------------------------------------------------------------------------------
// Calls into jiff
// ---------------------------------------------------------------------------------------

/// Text of the error `jiff::civil::Date::new` reports for the given components.
pub uninterp spec fn date_error_text(year: i16, month: i8, day: i8) -> Seq<char>;

/// Text of the error `jiff::civil::Time::new` reports for the given components.
pub uninterp spec fn time_error_text(hour: i8, minute: i8, second: i8, subsec: i32) -> Seq<char>;

/// Text of the error jiff reports when adding `days` days to the date `year-month-day` fails.
pub uninterp spec fn add_days_error_text(year: i16, month: i8, day: i8, days: i64) -> Seq<char>;

/// Calls `jiff::civil::Date::new`. Claimed, as jiff documents it: it succeeds exactly when
/// the year is in -9999..=9999, the month in 1..=12 and the day between 1 and the length
/// of that month; its error text depends on the arguments alone.
#[verifier::external_body]
fn check_civil_date(year: i16, month: i8, day: i8) -> (r: Result<(), String>)
    ensures
        r is Ok <==> is_valid_date(year as int, month as int, day as int),
        r matches Err(t) ==> t@ == date_error_text(year, month, day),
{
    match civil::Date::new(year, month, day) {
        Ok(_) => Ok(()),
        Err(e) => Err(e.to_string()),
    }
}

/// Calls `jiff::civil::Time::new`. Claimed, as jiff documents it: it succeeds exactly when
/// hour, minute, second and sub-second nanosecond are in 0..=23, 0..=59, 0..=59 and
/// 0..=999_999_999; its error text depends on the arguments alone.
#[verifier::external_body]
fn check_civil_time(hour: i8, minute: i8, second: i8, subsec: i32) -> (r: Result<(), String>)
    ensures
        r is Ok <==> is_valid_time(hour as int, minute as int, second as int, subsec as int),
        r matches Err(t) ==> t@ == time_error_text(hour, minute, second, subsec),
{
    match civil::Time::new(hour, minute, second, subsec) {
        Ok(_) => Ok(()),
        Err(e) => Err(e.to_string()),
    }
}

/// Calls `jiff::Span::try_days` and then `jiff::civil::Date::checked_add` with that span on
/// the date `year-month-day`. Claimed: the sum succeeds exactly when the date `days` days
/// later lies between -9999-01-01 and 9999-12-31, and is then that date (any two such dates
/// lie fewer than 7,304,485 days apart, the most a span of days holds, so the span is never
/// what refuses a sum in range); the error text depends on the arguments alone.
#[verifier::external_body]
fn date_checked_add_days(year: i16, month: i8, day: i8, days: i64) -> (r: Result<(i16, i8, i8), String>)
    requires
        is_valid_date(year as int, month as int, day as int),
    ensures
        r is Ok <==> min_epoch_day() <= unix_epoch_day(year as int, month as int, day as int)
            + days <= max_epoch_day(),
        r matches Ok((y, m, d)) ==> is_valid_date(y as int, m as int, d as int) && unix_epoch_day(
            y as int,
            m as int,
            d as int,
        ) == unix_epoch_day(year as int, month as int, day as int) + days,
        r matches Err(t) ==> t@ == add_days_error_text(year, month, day, days),
{
    match Span::new().try_days(days).and_then(|span| civil::date(year, month, day).checked_add(span)) {
        Ok(d) => Ok((d.year(), d.month(), d.day())),
        Err(e) => Err(e.to_string()),
    }
}

/// Calls `jiff::civil::Date::since` with the date `base_year-base_month-base_day` and reads
/// the days of the span. Claimed: with the default units (days the largest) the span is
/// always computed and holds the number of days from the base date to the date.
#[verifier::external_body]
fn date_days_since(year: i16, month: i8, day: i8, base_year: i16, base_month: i8, base_day: i8) -> (r: Option<i32>)
    requires
        is_valid_date(year as int, month as int, day as int),
        is_valid_date(base_year as int, base_month as int, base_day as int),
    ensures
        r == Some(
            (unix_epoch_day(year as int, month as int, day as int) - unix_epoch_day(
                base_year as int,
                base_month as int,
                base_day as int,
            )) as i32,
        ),
{
    civil::date(year, month, day).since(civil::date(base_year, base_month, base_day)).ok().map(
        |span| span.get_days(),
    )
}

/// Calls the `Display` of `jiff::civil::Date`. Claimed, as jiff's printer writes it: the
/// zero-padded `YYYY-MM-DD` form, with `-00` before the year when it is negative.
#[verifier::external_body]
fn civil_date_text(year: i16, month: i8, day: i8) -> (r: String)
    requires
        is_valid_date(year as int, month as int, day as int),
    ensures
        r@ == date_text(year as int, month as int, day as int),
{
    civil::date(year, month, day).to_string()
}

/// Calls the `Display` of `jiff::civil::Time`. Claimed, as jiff's printer writes it:
/// zero-padded `HH:MM:SS`, then `.` and the nine-digit fraction without trailing zeros
/// when the sub-second part is not zero.
#[verifier::external_body]
fn civil_time_text(hour: i8, minute: i8, second: i8, subsec: i32) -> (r: String)
    requires
        is_valid_time(hour as int, minute as int, second as int, subsec as int),
    ensures
        r@ == time_text(hour as int, minute as int, second as int, subsec as int),
{
    civil::time(hour, minute, second, subsec).to_string()
}

/// Calls `jiff::Timestamp::new` and then `jiff::tz::Offset::to_datetime` with the offset of
/// `offset_seconds`. Claimed: the timestamp is accepted exactly in jiff's documented range
/// (seconds within the supported instants, nanoseconds within one second, no negative
/// nanoseconds at the first second); the datetime is then the valid civil date and time
/// that lies `offset_seconds` after the instant, counted from 1970-01-01T00:00:00.
#[verifier::external_body]
fn timestamp_to_civil(second: i64, nanosecond: i32, offset_seconds: i32) -> (r: Result<
    (i16, i8, i8, i8, i8, i8, i32),
    (),
>)
    requires
        -max_offset_seconds() <= offset_seconds <= max_offset_seconds(),
    ensures
        r is Ok <==> is_valid_timestamp(second as int, nanosecond as int),
        r matches Ok((y, mo, d, h, mi, s, ns)) ==> {
            &&& is_valid_date(y as int, mo as int, d as int)
            &&& is_valid_time(h as int, mi as int, s as int, ns as int)
            &&& civil_nanos(y as int, mo as int, d as int, h as int, mi as int, s as int, ns as int)
                == second * 1_000_000_000 + nanosecond + offset_seconds * 1_000_000_000
        },
{
    let ts = Timestamp::new(second, nanosecond).map_err(|_| ())?;
    let offset = Offset::from_seconds(offset_seconds).map_err(|_| ())?;
    let dt = offset.to_datetime(ts);
    Ok((dt.year(), dt.month(), dt.day(), dt.hour(), dt.minute(), dt.second(), dt.subsec_nanosecond()))
}

/// Seconds part of the instant `t` nanoseconds after the epoch, as a timestamp stores it:
/// the quotient rounded toward zero.
pub open spec fn timestamp_second_of(t: int) -> int {
    if t / 1_000_000_000 < 0 && t % 1_000_000_000 != 0 {
        t / 1_000_000_000 + 1
    } else {
        t / 1_000_000_000
    }
}

/// Sub-second part of the instant `t` nanoseconds after the epoch, with the sign of the
/// instant.
pub open spec fn timestamp_nanosecond_of(t: int) -> int {
    t - timestamp_second_of(t) * 1_000_000_000
}

/// `civil_nanos` of machine-integer components.
pub open spec fn civil_nanos_of(year: i16, month: i8, day: i8, hour: i8, minute: i8, second: i8, subsec: i32) -> int {
    civil_nanos(year as int, month as int, day as int, hour as int, minute as int, second as int, subsec as int)
}

/// Nanoseconds since the epoch of the instant at which a clock `offset_seconds` ahead of
/// UTC shows the given civil date and time.
pub open spec fn instant_nanos_of(offset_seconds: i32, year: i16, month: i8, day: i8, hour: i8, minute: i8, second: i8, subsec: i32) -> int {
    civil_nanos_of(year, month, day, hour, minute, second, subsec) - offset_seconds * 1_000_000_000
}

/// Whether `found` is what looking up the zone named `name` in the machine's zone database,
/// and asking it for its offset at the instant (`second`, `nanosecond`), may give.
pub closed spec fn zone_lookup_gave(name: Seq<char>, second: i64, nanosecond: i32, found: Option<i32>) -> bool {
    exists|s: &str|
        #![trigger call_ensures(zone_offset_seconds, (s, second, nanosecond), found)]
        s@ == name && call_ensures(zone_offset_seconds, (s, second, nanosecond), found)
}

/// Calls `jiff::tz::Offset::from_seconds` and `to_timestamp` of that offset on the civil
/// datetime. Claimed, as jiff's source computes it: the seconds and nanoseconds of the
/// instant the civil datetime names at that offset, the nanoseconds carrying the sign of
/// the instant; it fails exactly when those seconds lie outside the supported range. An
/// instant whose seconds are the smallest supported but whose nanoseconds are negative lies
/// before the first timestamp, and jiff builds it without a check that debug builds assert
/// on, so such an instant is not handed to it.
#[verifier::external_body]
fn offset_to_timestamp(offset_seconds: i32, year: i16, month: i8, day: i8, hour: i8, minute: i8, second: i8, subsec: i32) -> (r: Result<(i64, i32), ()>)
    requires
        -max_offset_seconds() <= offset_seconds <= max_offset_seconds(),
        is_valid_date(year as int, month as int, day as int),
        is_valid_time(hour as int, minute as int, second as int, subsec as int),
        !(timestamp_second_of(instant_nanos_of(offset_seconds, year, month, day, hour, minute, second, subsec))
            == min_timestamp_second() && timestamp_nanosecond_of(
            instant_nanos_of(offset_seconds, year, month, day, hour, minute, second, subsec),
        ) < 0),
    ensures
        r is Ok <==> min_timestamp_second() <= timestamp_second_of(
            instant_nanos_of(offset_seconds, year, month, day, hour, minute, second, subsec),
        ) <= max_timestamp_second(),
        r matches Ok((s, n)) ==> s == timestamp_second_of(
            instant_nanos_of(offset_seconds, year, month, day, hour, minute, second, subsec),
        ) && n == timestamp_nanosecond_of(
            instant_nanos_of(offset_seconds, year, month, day, hour, minute, second, subsec),
        ),
{
    let offset = Offset::from_seconds(offset_seconds).map_err(|_| ())?;
    let dt = civil::date(year, month, day).at(hour, minute, second, subsec);
    offset.to_timestamp(dt).map(|ts| (ts.as_second(), ts.subsec_nanosecond())).map_err(|_| ())
}

/// Looks up the time zone `name` with `jiff::tz::TimeZone::get` and asks it for its offset
/// at the given instant. The lookup reads the time zone database of the machine, so
/// nothing is claimed of whether a name is found or of the offset found, beyond jiff's
/// bound on offsets and what jiff documents of `get`: a zone found for the name `UTC` is
/// UTC, whose offset is zero.
#[verifier::external_body]
fn zone_offset_seconds(name: &str, second: i64, nanosecond: i32) -> (r: Option<i32>)
    requires
        is_valid_timestamp(second as int, nanosecond as int),
    ensures
        r matches Some(o) ==> -max_offset_seconds() <= o <= max_offset_seconds(),
        name@ == "UTC"@ ==> (r matches Some(o) ==> o == 0),
{
    let ts = Timestamp::new(second, nanosecond).ok()?;
    TimeZone::get(name).ok().map(|tz| tz.to_offset(ts).seconds())
}

/// The text `String::from_utf8_lossy` makes of the bytes.
pub uninterp spec fn lossy_text(bytes: Seq<u8>) -> Seq<char>;

/// Calls `String::from_utf8_lossy` and takes the result as an owned string. Claimed, as std
/// documents it: the text depends on the bytes alone; valid UTF-8 gives the text it
/// encodes; otherwise each invalid sequence is replaced by U+FFFD, so that character
/// occurs in the text. Which sequences count as one invalid sequence is not spelled out.
#[verifier::external_body]
fn utf8_lossy_text(bytes: &[u8]) -> (r: String)
    ensures
        r@ == lossy_text(bytes@),
        valid_utf8(bytes@) ==> r@ == decode_utf8(bytes@),
        !valid_utf8(bytes@) ==> r@.contains('\u{FFFD}'),
{
    String::from_utf8_lossy(bytes).into_owned()
}

// ---------------------------------------------------------------------------------------
// Date
// ---------------------------------------------------------------------------------------

/// A calendar date (year-month-day) with no time zone.
#[derive(Debug, PartialEq, Eq, Clone, Copy, Structural)]
pub struct Date {
    year: i16,
    month: i8,
    day: i8,
}

impl Date {
    #[verifier::type_invariant]
    spec fn inv(self) -> bool {
        is_valid_date(self.year as int, self.month as int, self.day as int)
    }

    /// The year of this date.
    pub closed spec fn y(self) -> int {
        self.year as int
    }

    /// The month of this date (1 to 12).
    pub closed spec fn m(self) -> int {
        self.month as int
    }

    /// The day of the month of this date.
    pub closed spec fn d(self) -> int {
        self.day as int
    }

    /// Whether this is a valid date; every `Date` is.
    pub open spec fn valid(self) -> bool {
        is_valid_date(self.y(), self.m(), self.d())
    }

    /// Days from 1970-01-01 to this date.
    pub open spec fn epoch_day(self) -> int {
        unix_epoch_day(self.y(), self.m(), self.d())
    }

    /// Creates a date from its calendar components, failing on an invalid date.
    pub fn new(year: i16, month: i8, day: i8) -> (r: Result<Date, MgError>)
        ensures
            r is Ok <==> is_valid_date(year as int, month as int, day as int),
            r matches Ok(d) ==> d.valid() && d.y() == year && d.m() == month && d.d() == day,
            r matches Err(e) ==> e matches MgError::InvalidParameter { parameter, reason }
                && parameter@ == "date"@ && reason@ == date_error_text(year, month, day),
    {
        match check_civil_date(year, month, day) {
            Ok(()) => Ok(Date { year, month, day }),
            Err(reason) => Err(MgError::InvalidParameter { parameter: String::from_str("date"), reason }),
        }
    }

    pub fn year(&self) -> (r: i16)
        ensures
            r == self.y(),
    {
        self.year
    }

    pub fn month(&self) -> (r: i8)
        ensures
            r == self.m(),
    {
        self.month
    }

    pub fn day(&self) -> (r: i8)
        ensures
            r == self.d(),
    {
        self.day
    }

    /// ISO 8601 text of this date, such as `1970-04-11`.
    pub fn to_string(&self) -> (s: String)
        ensures
            s@ == date_text(self.y(), self.m(), self.d()),
    {
        proof {
            use_type_invariant(self);
        }
        civil_date_text(self.year, self.month, self.day)
    }
}

/// The date `days` days after 1970-01-01, as the wire format stores dates.
pub fn mg_value_date(days: i64) -> (r: Result<Date, MgError>)
    ensures
        r is Ok <==> min_epoch_day() <= days <= max_epoch_day(),
        r matches Ok(d) ==> d.valid() && d.epoch_day() == days,
        r matches Err(e) ==> e matches MgError::InvalidParameter { parameter, reason }
            && parameter@ == "date"@ && reason@ == add_days_error_text(1970, 1, 1, days),
{
    assert(is_valid_date(1970, 1, 1) && unix_epoch_day(1970, 1, 1) == 0);
    match date_checked_add_days(1970, 1, 1, days) {
        Ok((year, month, day)) => Ok(Date { year, month, day }),
        Err(reason) => Err(MgError::InvalidParameter { parameter: String::from_str("date"), reason }),
    }
}

/// The wire form of a date: days since 1970-01-01.
pub fn date_to_mg_date(input: &Date) -> (days: i64)
    ensures
        days == input.epoch_day(),
{
    proof {
        use_type_invariant(input);
    }
    assert(is_valid_date(1970, 1, 1) && unix_epoch_day(1970, 1, 1) == 0);
    match date_days_since(input.year, input.month, input.day, 1970, 1, 1) {
        Some(n) => n as i64,
        None => 0,
    }
}

/// Converting a date to its wire form and back gives the same date: its epoch day is one
/// that `mg_value_date` accepts and maps to a date, and the only valid date with that epoch
/// day is the date itself.
pub proof fn lemma_date_round_trip(d: Date)
    requires
        d.valid(),
    ensures
        min_epoch_day() <= d.epoch_day() <= max_epoch_day(),
        forall|e: Date| e.valid() && e.epoch_day() == d.epoch_day() ==> e == d,
{
    crate::calendar::lemma_unix_epoch_day_range(d.y(), d.m(), d.d());
    assert forall|e: Date| e.valid() && e.epoch_day() == d.epoch_day() implies e == d by {
        crate::calendar::lemma_unix_epoch_day_injective(e.y(), e.m(), e.d(), d.y(), d.m(), d.d());
    }
}

// ---------------------------------------------------------------------------------------
// Unit conversions
// ---------------------------------------------------------------------------------------

/// Seconds in `days` days.
pub fn days_as_seconds(days: i64) -> (r: i64)
    requires
        i64::MIN <= days * 86_400 <= i64::MAX,
    ensures
        r == days * 86_400,
{
    hours_as_seconds(days * 24)
}

/// Seconds in `hours` hours.
pub fn hours_as_seconds(hours: i64) -> (r: i64)
    requires
        i64::MIN <= hours * 3_600 <= i64::MAX,
    ensures
        r == hours * 3_600,
{
    minutes_as_seconds(hours * 60)
}

/// Seconds in `minutes` minutes.
pub fn minutes_as_seconds(minutes: i64) -> (r: i64)
    requires
        i64::MIN <= minutes * 60 <= i64::MAX,
    ensures
        r == minutes * 60,
{
    minutes * 60
}

// ---------------------------------------------------------------------------------------
// Time of day
// ---------------------------------------------------------------------------------------

/// A wall-clock time of day (no date, no time zone).
#[derive(Debug, PartialEq, Eq, Clone, Copy, Structural)]
pub struct LocalTime {
    hour: i8,
    minute: i8,
    second: i8,
    nanosecond: i32,
}

impl LocalTime {
    #[verifier::type_invariant]
    spec fn inv(self) -> bool {
        is_valid_time(self.hour as int, self.minute as int, self.second as int, self.nanosecond as int)
    }

    pub closed spec fn h(self) -> int {
        self.hour as int
    }

    pub closed spec fn mi(self) -> int {
        self.minute as int
    }

    pub closed spec fn s(self) -> int {
        self.second as int
    }

    pub closed spec fn ns(self) -> int {
        self.nanosecond as int
    }

    /// Whether this is a valid time of day; every `LocalTime` is.
    pub open spec fn valid(self) -> bool {
        is_valid_time(self.h(), self.mi(), self.s(), self.ns())
    }

    /// Nanoseconds from midnight to this time.
    pub open spec fn nanos(self) -> int {
        time_of_day_nanos(self.h(), self.mi(), self.s(), self.ns())
    }

    /// Creates a time from its components, failing on an invalid time.
    pub fn new(hour: i8, minute: i8, second: i8, nanosecond: i32) -> (r: Result<Self, MgError>)
        ensures
            r is Ok <==> is_valid_time(hour as int, minute as int, second as int, nanosecond as int),
            r matches Ok(t) ==> t.valid() && t.h() == hour && t.mi() == minute && t.s() == second
                && t.ns() == nanosecond,
            r matches Err(e) ==> e matches MgError::InvalidParameter { parameter, reason }
                && parameter@ == "local_time"@ && reason@ == time_error_text(hour, minute, second, nanosecond),
    {
        match check_civil_time(hour, minute, second, nanosecond) {
            Ok(()) => Ok(LocalTime { hour, minute, second, nanosecond }),
            Err(reason) => Err(MgError::InvalidParameter { parameter: String::from_str("local_time"), reason }),
        }
    }

    pub fn hour(&self) -> (r: i8)
        ensures
            r == self.h(),
    {
        self.hour
    }

    pub fn minute(&self) -> (r: i8)
        ensures
            r == self.mi(),
    {
        self.minute
    }

    pub fn second(&self) -> (r: i8)
        ensures
            r == self.s(),
    {
        self.second
    }

    /// Sub-second component, in nanoseconds (0 to 999,999,999).
    pub fn nanosecond(&self) -> (r: i32)
        ensures
            r == self.ns(),
    {
        self.nanosecond
    }

    /// Text of this time, such as `14:40:35.851241`.
    pub fn to_string(&self) -> (s: String)
        ensures
            s@ == time_text(self.h(), self.mi(), self.s(), self.ns()),
    {
        proof {
            use_type_invariant(self);
        }
        civil_time_text(self.hour, self.minute, self.second, self.nanosecond)
    }
}

/// Hour, minute, second and sub-second parts that the wire form `total` nanoseconds after
/// midnight is read into: each computed with division rounded toward zero and narrowed to
/// its machine type.
pub open spec fn local_time_parts(total: int) -> (i8, i8, i8, i32) {
    let secs = trunc_div(total, 1_000_000_000);
    (
        trunc_div(secs, 3600) as i8,
        trunc_rem(trunc_div(secs, 60), 60) as i8,
        trunc_rem(secs, 60) as i8,
        trunc_rem(total, 1_000_000_000) as i32,
    )
}

/// The time of day that the wire form, nanoseconds since midnight, stands for.
pub fn mg_value_local_time(total_ns: i64) -> (r: Result<LocalTime, MgError>)
    ensures
        ({
            let (h, mi, s, ns) = local_time_parts(total_ns as int);
            &&& r is Ok <==> is_valid_time(h as int, mi as int, s as int, ns as int)
            &&& r matches Ok(t) ==> t.valid() && t.h() == h && t.mi() == mi && t.s() == s
                && t.ns() == ns
            &&& r matches Err(e) ==> e matches MgError::InvalidParameter { parameter, reason }
                && parameter@ == "local_time"@ && reason@ == time_error_text(h, mi, s, ns)
        }),
{
    let nsec_in_sec: i64 = 1_000_000_000;
    let secs = total_ns / nsec_in_sec;
    let hour = (secs / 3_600) as i8;
    let minute = (secs / 60 % 60) as i8;
    let second = (secs % 60) as i8;
    let subsec = (total_ns % nsec_in_sec) as i32;
    LocalTime::new(hour, minute, second, subsec)
}

/// The wire form of a time of day: nanoseconds since midnight.
pub fn local_time_to_mg_local_time(input: &LocalTime) -> (total: i64)
    ensures
        total == input.nanos(),
{
    proof {
        use_type_invariant(input);
    }
    let nsec_in_sec: i64 = 1_000_000_000;
    let hours_ns = hours_as_seconds(input.hour as i64) * nsec_in_sec;
    let minutes_ns = minutes_as_seconds(input.minute as i64) * nsec_in_sec;
    let seconds_ns = (input.second as i64) * nsec_in_sec;
    let nanoseconds = input.nanosecond as i64;
    hours_ns + minutes_ns + seconds_ns + nanoseconds
}

/// Converting a time of day to its wire form and reading it back gives the same time.
pub proof fn lemma_local_time_round_trip(t: LocalTime)
    requires
        t.valid(),
    ensures
        local_time_parts(t.nanos()) == (t.h() as i8, t.mi() as i8, t.s() as i8, t.ns() as i32),
        is_valid_time(t.h(), t.mi(), t.s(), t.ns()),
{
    let total = t.nanos();
    let secs = t.h() * 3600 + t.mi() * 60 + t.s();
    assert(total / 1_000_000_000 == secs) by (nonlinear_arith)
        requires
            total == secs * 1_000_000_000 + t.ns(),
            0 <= t.ns() < 1_000_000_000,
            secs >= 0,
    ;
    assert(total % 1_000_000_000 == t.ns()) by (nonlinear_arith)
        requires
            total == secs * 1_000_000_000 + t.ns(),
            0 <= t.ns() < 1_000_000_000,
            secs >= 0,
    ;
    assert(secs / 3600 == t.h());
    assert(secs / 60 == t.h() * 60 + t.mi());
    assert((t.h() * 60 + t.mi()) % 60 == t.mi());
    assert(secs % 60 == t.s());
}

// ---------------------------------------------------------------------------------------
// Civil date and time
// ---------------------------------------------------------------------------------------

/// A date and wall-clock time with no time zone.
#[derive(Debug, PartialEq, Eq, Clone, Copy, Structural)]
pub struct LocalDateTime {
    date: Date,
    time: LocalTime,
}

impl LocalDateTime {
    pub closed spec fn date_part(self) -> Date {
        self.date
    }

    pub closed spec fn time_part(self) -> LocalTime {
        self.time
    }

    /// Whether both parts are valid; every `LocalDateTime` is.
    pub open spec fn valid(self) -> bool {
        self.date_part().valid() && self.time_part().valid()
    }

    /// Nanoseconds from 1970-01-01T00:00:00 to this datetime.
    pub open spec fn nanos(self) -> int {
        civil_nanos(
            self.date_part().y(),
            self.date_part().m(),
            self.date_part().d(),
            self.time_part().h(),
            self.time_part().mi(),
            self.time_part().s(),
            self.time_part().ns(),
        )
    }

    /// Creates a datetime from its components, failing on an invalid date or time.
    pub fn new(
        year: i16,
        month: i8,
        day: i8,
        hour: i8,
        minute: i8,
        second: i8,
        nanosecond: i32,
    ) -> (r: Result<Self, MgError>)
        ensures
            r is Ok <==> is_valid_date(year as int, month as int, day as int) && is_valid_time(
                hour as int,
                minute as int,
                second as int,
                nanosecond as int,
            ),
            r matches Ok(dt) ==> dt.valid() && dt.date_part().y() == year && dt.date_part().m()
                == month && dt.date_part().d() == day && dt.time_part().h() == hour
                && dt.time_part().mi() == minute && dt.time_part().s() == second
                && dt.time_part().ns() == nanosecond,
            r matches Err(e) ==> e matches MgError::InvalidParameter { parameter, reason }
                && parameter@ == "local_date_time"@ && reason@ == (if !is_valid_date(
                year as int,
                month as int,
                day as int,
            ) {
                date_error_text(year, month, day)
            } else {
                time_error_text(hour, minute, second, nanosecond)
            }),
    {
        match check_civil_date(year, month, day) {
            Ok(()) => {},
            Err(reason) => {
                return Err(
                    MgError::InvalidParameter {
                        parameter: String::from_str("local_date_time"),
                        reason,
                    },
                );
            },
        }
        match check_civil_time(hour, minute, second, nanosecond) {
            Ok(()) => {},
            Err(reason) => {
                return Err(
                    MgError::InvalidParameter {
                        parameter: String::from_str("local_date_time"),
                        reason,
                    },
                );
            },
        }
        Ok(
            LocalDateTime {
                date: Date { year, month, day },
                time: LocalTime { hour, minute, second, nanosecond },
            },
        )
    }

    pub fn year(&self) -> (r: i16)
        ensures
            r == self.date_part().y(),
    {
        self.date.year()
    }

    pub fn month(&self) -> (r: i8)
        ensures
            r == self.date_part().m(),
    {
        self.date.month()
    }

    pub fn day(&self) -> (r: i8)
        ensures
            r == self.date_part().d(),
    {
        self.date.day()
    }

    pub fn hour(&self) -> (r: i8)
        ensures
            r == self.time_part().h(),
    {
        self.time.hour()
    }

    pub fn minute(&self) -> (r: i8)
        ensures
            r == self.time_part().mi(),
    {
        self.time.minute()
    }

    pub fn second(&self) -> (r: i8)
        ensures
            r == self.time_part().s(),
    {
        self.time.second()
    }

    /// Sub-second component, in nanoseconds (0 to 999,999,999).
    pub fn nanosecond(&self) -> (r: i32)
        ensures
            r == self.time_part().ns(),
    {
        self.time.nanosecond()
    }

    /// Text of this datetime: the date, a space and the time, such as
    /// `1971-05-16 14:40:35.851241`.
    pub fn to_string(&self) -> (s: String)
        ensures
            s@ == date_text(self.date_part().y(), self.date_part().m(), self.date_part().d())
                + seq![' '] + time_text(
                self.time_part().h(),
                self.time_part().mi(),
                self.time_part().s(),
                self.time_part().ns(),
            ),
    {
        let mut s = self.date.to_string();
        s.push(' ');
        let t = self.time.to_string();
        s.append(t.as_str());
        s
    }
}

/// The civil datetime that the wire form (seconds and nanoseconds since the epoch, read
/// as UTC) stands for. The nanoseconds are narrowed to 32 bits first.
pub fn mg_value_local_date_time(seconds: i64, nanoseconds: i64) -> (r: Result<LocalDateTime, MgError>)
    ensures
        r is Ok <==> is_valid_timestamp(seconds as int, (nanoseconds as i32) as int),
        r matches Ok(dt) ==> dt.valid() && dt.nanos() == seconds * 1_000_000_000 + (
        nanoseconds as i32),
        r matches Err(e) ==> e is InvalidTimestamp,
{
    match timestamp_to_civil(seconds, nanoseconds as i32, 0) {
        Ok((year, month, day, hour, minute, second, nanosecond)) => Ok(
            LocalDateTime {
                date: Date { year, month, day },
                time: LocalTime { hour, minute, second, nanosecond },
            },
        ),
        Err(()) => Err(MgError::InvalidTimestamp),
    }
}

/// The wire form of a civil datetime read as UTC: seconds and nanoseconds since the
/// epoch, the nanoseconds carrying the sign of the instant. A datetime outside the range of
/// timestamps is sent as the epoch.
pub fn local_date_time_to_mg_local_date_time(input: &LocalDateTime) -> (r: (i64, i64))
    ensures
        is_valid_timestamp(timestamp_second_of(input.nanos()), timestamp_nanosecond_of(input.nanos()))
            ==> r.0 == timestamp_second_of(input.nanos()) && r.1 == timestamp_nanosecond_of(
            input.nanos(),
        ),
        !is_valid_timestamp(timestamp_second_of(input.nanos()), timestamp_nanosecond_of(input.nanos()))
            ==> r == (0i64, 0i64),
{
    proof {
        use_type_invariant(&input.date);
        use_type_invariant(&input.time);
        crate::calendar::lemma_unix_epoch_day_range(input.date.y(), input.date.m(), input.date.d());
    }
    let day: i64 = date_to_mg_date(&input.date);
    let secs: i64 = day * 86_400 + (input.time.hour as i64) * 3_600 + (input.time.minute as i64)
        * 60 + (input.time.second as i64);
    let ns: i32 = input.time.nanosecond;
    proof {
        let t = input.nanos();
        assert(t == secs * 1_000_000_000 + ns);
        assert(t / 1_000_000_000 == secs && t % 1_000_000_000 == ns) by (nonlinear_arith)
            requires
                t == secs * 1_000_000_000 + ns,
                0 <= ns < 1_000_000_000,
        ;
    }
    if secs == -377_705_023_202 && ns > 0 {
        // The instant lies in the second before the first timestamp.
        return (0, 0);
    }
    match offset_to_timestamp(
        0,
        input.date.year,
        input.date.month,
        input.date.day,
        input.time.hour,
        input.time.minute,
        input.time.second,
        input.time.nanosecond,
    ) {
        Ok((s, n)) => (s, n as i64),
        Err(()) => (0, 0),
    }
}

/// Converting a civil datetime within the range of timestamps to its wire form and reading
/// it back gives the same datetime.
pub proof fn lemma_local_date_time_round_trip(dt: LocalDateTime)
    requires
        dt.valid(),
        min_timestamp_second() * 1_000_000_000 <= dt.nanos() <= max_timestamp_second()
            * 1_000_000_000 + 999_999_999,
    ensures
        min_timestamp_second() <= timestamp_second_of(dt.nanos()) <= max_timestamp_second(),
        is_valid_timestamp(
            timestamp_second_of(dt.nanos()),
            timestamp_nanosecond_of(dt.nanos()),
        ),
        timestamp_second_of(dt.nanos()) * 1_000_000_000 + timestamp_nanosecond_of(dt.nanos())
            == dt.nanos(),
        forall|e: LocalDateTime| e.valid() && e.nanos() == dt.nanos() ==> e == dt,
{
    let t = dt.nanos();
    let q = t / 1_000_000_000;
    let r = t % 1_000_000_000;
    assert(t == q * 1_000_000_000 + r && 0 <= r < 1_000_000_000);
    assert forall|e: LocalDateTime| e.valid() && e.nanos() == dt.nanos() implies e == dt by {
        crate::calendar::lemma_civil_nanos_injective(
            e.date_part().y(),
            e.date_part().m(),
            e.date_part().d(),
            e.time_part().h(),
            e.time_part().mi(),
            e.time_part().s(),
            e.time_part().ns(),
            dt.date_part().y(),
            dt.date_part().m(),
            dt.date_part().d(),
            dt.time_part().h(),
            dt.time_part().mi(),
            dt.time_part().s(),
            dt.time_part().ns(),
        );
    }
}

// ---------------------------------------------------------------------------------------
// Duration
// ---------------------------------------------------------------------------------------

/// Whether `t` nanoseconds can be held by a `Duration` (whole seconds within `i64`).
pub open spec fn duration_in_range(t: int) -> bool {
    i64::MIN * 1_000_000_000 - 999_999_999 <= t <= i64::MAX * 1_000_000_000 + 999_999_999
}

/// Text of a duration in the ISO 8601 `PT<seconds>S` form: `-` in front when the duration
/// is negative, then its magnitude: whole seconds, then `.` and the fractional digits of the
/// sub-second part when it is not zero (so `-PT0.5S` for minus half a second).
pub open spec fn duration_text(secs: int, nanos: int) -> Seq<char> {
    (if secs < 0 || nanos < 0 {
        seq!['-']
    } else {
        Seq::<char>::empty()
    }) + seq!['P', 'T'] + decimal(abs(secs) as nat) + (if nanos == 0 {
        Seq::<char>::empty()
    } else {
        seq!['.'] + fraction_text(abs(nanos) as nat)
    }) + seq!['S']
}

/// A signed, calendar-free duration (a fixed amount of time), kept as whole seconds and a
/// sub-second count of nanoseconds with the same sign.
#[derive(Debug, PartialEq, Eq, Clone, Copy, Structural)]
pub struct Duration {
    secs: i64,
    nanos: i32,
}

/// The duration of `t` nanoseconds.
pub closed spec fn duration_of(t: int) -> Duration {
    Duration { secs: trunc_div(t, 1_000_000_000) as i64, nanos: trunc_rem(t, 1_000_000_000) as i32 }
}

impl Duration {
    #[verifier::type_invariant]
    spec fn inv(self) -> bool {
        &&& -999_999_999 <= self.nanos <= 999_999_999
        &&& self.secs > 0 ==> self.nanos >= 0
        &&& self.secs < 0 ==> self.nanos <= 0
    }

    /// Whole seconds of this duration.
    pub closed spec fn sec(self) -> int {
        self.secs as int
    }

    /// Sub-second nanoseconds of this duration, with the sign of the duration.
    pub closed spec fn nsec(self) -> int {
        self.nanos as int
    }

    /// Total nanoseconds of this duration.
    pub open spec fn total(self) -> int {
        self.sec() * 1_000_000_000 + self.nsec()
    }

    /// Whether seconds and nanoseconds are in the normal form; every `Duration` is.
    pub open spec fn valid(self) -> bool {
        &&& -999_999_999 <= self.nsec() <= 999_999_999
        &&& self.sec() > 0 ==> self.nsec() >= 0
        &&& self.sec() < 0 ==> self.nsec() <= 0
    }

    /// A duration of `days` whole days (each taken as 86 400 seconds).
    pub fn days(days: i64) -> (r: Duration)
        requires
            i64::MIN <= days * 86_400 <= i64::MAX,
        ensures
            r.valid(),
            r.sec() == days * 86_400,
            r.nsec() == 0,
    {
        Duration { secs: days * 86_400, nanos: 0 }
    }

    /// A duration of `seconds` whole seconds.
    pub fn seconds(seconds: i64) -> (r: Duration)
        ensures
            r.valid(),
            r.sec() == seconds,
            r.nsec() == 0,
    {
        Duration { secs: seconds, nanos: 0 }
    }

    /// A duration of `nanoseconds` nanoseconds.
    pub fn nanoseconds(nanoseconds: i64) -> (r: Duration)
        ensures
            r.valid(),
            r.total() == nanoseconds,
            r == duration_of(nanoseconds as int),
    {
        let nsec_in_sec: i64 = 1_000_000_000;
        let secs = nanoseconds / nsec_in_sec;
        let nanos = (nanoseconds % nsec_in_sec) as i32;
        Duration { secs, nanos }
    }

    /// Total number of whole weeks in the duration, rounded toward zero.
    pub fn num_weeks(&self) -> (r: i64)
        ensures
            r == trunc_div(self.sec(), 604_800),
    {
        self.num_seconds() / (7 * 86_400)
    }

    /// Total number of whole days in the duration, rounded toward zero.
    pub fn num_days(&self) -> (r: i64)
        ensures
            r == trunc_div(self.sec(), 86_400),
    {
        self.num_seconds() / 86_400
    }

    /// Total number of whole hours in the duration, rounded toward zero.
    pub fn num_hours(&self) -> (r: i64)
        ensures
            r == trunc_div(self.sec(), 3_600),
    {
        self.num_seconds() / 3_600
    }

    /// Total number of whole seconds in the duration, rounded toward zero.
    pub fn num_seconds(&self) -> (r: i64)
        ensures
            r == self.sec(),
    {
        self.secs
    }

    /// Total number of nanoseconds in the duration, narrowed to 64 bits.
    pub fn num_nanoseconds(&self) -> (r: i64)
        ensures
            r == self.total() as i64,
    {
        let t: i128 = (self.secs as i128) * 1_000_000_000 + (self.nanos as i128);
        t as i64
    }

    /// Text of this duration, such as `PT864100.000001S` or `-PT1.5S`.
    pub fn to_string(&self) -> (s: String)
        ensures
            s@ == duration_text(self.sec(), self.nsec()),
            s@.len() > 0 && (s@[0] == '-' <==> self.total() < 0),
    {
        proof {
            use_type_invariant(self);
            lemma_duration_text_sign(*self);
        }
        let mut s = String::new();
        if self.secs < 0 || self.nanos < 0 {
            s.push('-');
        }
        s.push('P');
        s.push('T');
        let whole: u64 = if self.secs == i64::MIN {
            9223372036854775808u64
        } else if self.secs < 0 {
            (-self.secs) as u64
        } else {
            self.secs as u64
        };
        push_decimal(&mut s, whole);
        if self.nanos != 0 {
            s.push('.');
            let magnitude: u32 = if self.nanos < 0 {
                (-self.nanos) as u32
            } else {
                self.nanos as u32
            };
            push_fraction(&mut s, magnitude);
        }
        s.push('S');
        proof {
            assert(s@ =~= duration_text(self.sec(), self.nsec()));
        }
        s
    }
}

/// The text of a duration starts with a minus sign exactly when the duration is negative,
/// so a negative duration never has the text of a positive one.
pub proof fn lemma_duration_text_sign(d: Duration)
    requires
        d.valid(),
    ensures
        duration_text(d.sec(), d.nsec()).len() > 0,
        duration_text(d.sec(), d.nsec())[0] == '-' <==> d.total() < 0,
{
    let t = duration_text(d.sec(), d.nsec());
    if d.sec() < 0 || d.nsec() < 0 {
        assert(t[0] == '-');
    } else {
        assert(t[0] == 'P');
    }
    assert(d.total() < 0 <==> (d.sec() < 0 || d.nsec() < 0)) by (nonlinear_arith)
        requires
            -999_999_999 <= d.nsec() <= 999_999_999,
            d.sec() > 0 ==> d.nsec() >= 0,
            d.sec() < 0 ==> d.nsec() <= 0,
            d.total() == d.sec() * 1_000_000_000 + d.nsec(),
    ;
}

/// A valid duration is the duration of its total nanoseconds.
pub proof fn lemma_duration_of_total(d: Duration)
    requires
        d.valid(),
    ensures
        duration_of(d.total()) == d,
{
    let t = d.total();
    let s = d.sec();
    let n = d.nsec();
    if t >= 0 {
        assert(s >= 0);
        assert(t / 1_000_000_000 == s) by (nonlinear_arith)
            requires
                t == s * 1_000_000_000 + n,
                0 <= n < 1_000_000_000,
                s >= 0,
        ;
    } else {
        assert(s <= 0);
        assert((-t) / 1_000_000_000 == -s) by (nonlinear_arith)
            requires
                -t == (-s) * 1_000_000_000 + (-n),
                0 <= -n < 1_000_000_000,
                -s >= 0,
        ;
    }
}

/// The duration of `t` nanoseconds is valid, has `t` as its total, and its seconds lie in
/// range when `t` does.
pub proof fn lemma_duration_of(t: int)
    requires
        duration_in_range(t),
    ensures
        duration_of(t).valid(),
        duration_of(t).total() == t,
        duration_of(t).sec() == trunc_div(t, 1_000_000_000),
{
    let q = trunc_div(t, 1_000_000_000);
    if t >= 0 {
        assert(q <= i64::MAX) by (nonlinear_arith)
            requires
                q == t / 1_000_000_000,
                t <= i64::MAX * 1_000_000_000 + 999_999_999,
                t >= 0,
        ;
    } else {
        assert(q >= i64::MIN) by (nonlinear_arith)
            requires
                q == -((-t) / 1_000_000_000),
                -t <= -(i64::MIN * 1_000_000_000) + 999_999_999,
                -t > 0,
        ;
    }
}

impl core::ops::Add for Duration {
    type Output = Duration;

    fn add(self, other: Duration) -> (r: Duration)
        ensures
            r.valid(),
            r.total() == self.total() + other.total(),
    {
        proof {
            use_type_invariant(&self);
            use_type_invariant(&other);
            lemma_duration_of(self.total() + other.total());
        }
        let t: i128 = (self.secs as i128) * 1_000_000_000 + (self.nanos as i128) + (other.secs
            as i128) * 1_000_000_000 + (other.nanos as i128);
        let secs = (t / 1_000_000_000) as i64;
        let nanos = (t % 1_000_000_000) as i32;
        Duration { secs, nanos }
    }
}

impl vstd::std_specs::ops::AddSpecImpl for Duration {
    open spec fn obeys_add_spec() -> bool {
        true
    }

    open spec fn add_req(self, other: Duration) -> bool {
        duration_in_range(self.total() + other.total())
    }

    open spec fn add_spec(self, other: Duration) -> Duration {
        duration_of(self.total() + other.total())
    }
}

/// Adding durations adds their total lengths, the sub-second parts carrying into whole
/// seconds: when the sum is in range, `a + b` is a valid duration whose total is the sum of
/// the totals.
pub proof fn lemma_duration_add_totals(a: Duration, b: Duration)
    requires
        a.valid(),
        b.valid(),
        duration_in_range(a.total() + b.total()),
    ensures
        a.add_spec(b).valid(),
        a.add_spec(b).total() == a.total() + b.total(),
{
    lemma_duration_of(a.total() + b.total());
}

/// The duration that the wire form stands for: `days` whole days, `seconds` and
/// `nanoseconds` (narrowed to 32 bits).
pub fn mg_value_duration(days: i64, seconds: i64, nanoseconds: i64) -> (r: Duration)
    requires
        i64::MIN <= days * 86_400 <= i64::MAX,
        i64::MIN <= days * 86_400 + seconds <= i64::MAX,
        i64::MIN <= days * 86_400 + seconds + trunc_div((nanoseconds as i32) as int, 1_000_000_000)
            <= i64::MAX,
    ensures
        r.valid(),
        r.total() == (days * 86_400 + seconds) * 1_000_000_000 + (nanoseconds as i32),
        r == duration_of((days * 86_400 + seconds) * 1_000_000_000 + (nanoseconds as i32)),
{
    let secs: i64 = days_as_seconds(days) + seconds;
    let nanos: i32 = #[verifier::truncate] (nanoseconds as i32);
    proof {
        let t = secs * 1_000_000_000 + nanos;
        let c = trunc_div(nanos as int, 1_000_000_000);
        let rm = trunc_rem(nanos as int, 1_000_000_000);
        assert(t == (secs + c) * 1_000_000_000 + rm);
        assert(-999_999_999 <= rm <= 999_999_999);
        assert(duration_in_range(t)) by (nonlinear_arith)
            requires
                t == (secs + c) * 1_000_000_000 + rm,
                -999_999_999 <= rm <= 999_999_999,
                i64::MIN <= secs + c <= i64::MAX,
        ;
        lemma_duration_of(t);
    }
    let t: i128 = (secs as i128) * 1_000_000_000 + (nanos as i128);
    let s = (t / 1_000_000_000) as i64;
    let n = (t % 1_000_000_000) as i32;
    Duration { secs: s, nanos: n }
}

/// The wire form of a duration: months (always zero), days, seconds within the last day and
/// nanoseconds, each with the sign of the duration.
pub fn duration_to_mg_duration(input: &Duration) -> (r: (i64, i64, i64, i64))
    ensures
        r.0 == 0,
        r.1 == trunc_div(input.sec(), 86_400),
        r.2 == trunc_rem(input.sec(), 86_400),
        r.3 == input.nsec(),
{
    let total_secs = input.secs;
    let days = total_secs / 86_400;
    let seconds = total_secs % 86_400;
    let nanoseconds = input.nanos as i64;
    (0, days, seconds, nanoseconds)
}

/// Converting a duration to its wire form and reading it back gives the same duration.
pub proof fn lemma_duration_round_trip(d: Duration)
    requires
        d.valid(),
    ensures
        trunc_div(d.sec(), 86_400) * 86_400 + trunc_rem(d.sec(), 86_400) == d.sec(),
        (d.nsec() as i64) as i32 == d.nsec(),
        trunc_div(d.nsec(), 1_000_000_000) == 0,
        duration_of(d.sec() * 1_000_000_000 + d.nsec()) == d,
{
    lemma_duration_of_total(d);
}

// ---------------------------------------------------------------------------------------
// Zoned datetime
// ---------------------------------------------------------------------------------------

/// A DateTime value with time zone: the civil date and time in the zone, the zone's offset
/// from UTC at that instant, and the zone's name.
#[derive(Debug, PartialEq, Clone)]
pub struct DateTime {
    pub year: i32,
    pub month: u32,
    pub day: u32,
    pub hour: u32,
    pub minute: u32,
    pub second: u32,
    pub nanosecond: u32,
    pub time_zone_offset_seconds: i32,
    pub time_zone_id: Option<String>,
}

/// The zone name used when the wire value names none.
pub open spec fn zone_name_or_utc(name: Option<String>) -> Seq<char> {
    match name {
        Some(n) => n@,
        None => "UTC"@,
    }
}

/// The offset, in seconds, of a zone for which the zone database gave `offset`: that offset,
/// or zero (UTC) when it gave none.
pub open spec fn offset_or_utc(offset: Option<i32>) -> int {
    match offset {
        Some(o) => o as int,
        None => 0,
    }
}

/// The offset taken for a zone is the one the lookup gave, unchanged, and zero when it gave
/// none.
pub proof fn lemma_offset_or_utc(offset: Option<i32>)
    ensures
        offset matches Some(o) ==> offset_or_utc(offset) == o,
        offset is None ==> offset_or_utc(offset) == 0,
{
}

/// Whether `dt` is the zoned datetime of the instant (`seconds` and `nanos` since the
/// epoch) in a zone named `name` whose offset from UTC is `offset` seconds: the civil date
/// and time that lie `offset` seconds after the instant.
pub open spec fn is_datetime_at(dt: DateTime, seconds: int, nanos: int, name: Seq<char>, offset: int) -> bool {
    &&& dt.time_zone_id matches Some(id) && id@ == name
    &&& dt.time_zone_offset_seconds == offset
    &&& is_valid_date(dt.year as int, dt.month as int, dt.day as int)
    &&& is_valid_time(dt.hour as int, dt.minute as int, dt.second as int, dt.nanosecond as int)
    &&& civil_nanos(dt.year as int, dt.month as int, dt.day as int, dt.hour as int, dt.minute as int, dt.second as int, dt.nanosecond as int)
        == seconds * 1_000_000_000 + nanos + offset * 1_000_000_000
}

/// The zoned datetime of the instant (`seconds` and `nanos` since the epoch) in the zone
/// named `name`, given the offset the zone database gave for that zone at that instant; when
/// it gave none (an unknown name), the zone is taken as UTC.
pub fn datetime_at_offset(seconds: i64, nanos: i32, name: String, offset: Option<i32>) -> (r: Result<DateTime, MgError>)
    requires
        offset matches Some(o) ==> -max_offset_seconds() <= o <= max_offset_seconds(),
    ensures
        r is Ok <==> is_valid_timestamp(seconds as int, nanos as int),
        r matches Ok(dt) ==> is_datetime_at(dt, seconds as int, nanos as int, name@, offset_or_utc(offset)),
        r matches Ok(dt) ==> (offset matches Some(o) ==> dt.time_zone_offset_seconds == o) && (
        offset is None ==> dt.time_zone_offset_seconds == 0) && civil_nanos(
            dt.year as int,
            dt.month as int,
            dt.day as int,
            dt.hour as int,
            dt.minute as int,
            dt.second as int,
            dt.nanosecond as int,
        ) == seconds * 1_000_000_000 + nanos + dt.time_zone_offset_seconds * 1_000_000_000,
        r matches Err(e) ==> e is InvalidTimestamp,
{
    proof {
        lemma_offset_or_utc(offset);
    }
    let off: i32 = match offset {
        Some(o) => o,
        None => 0,
    };
    match timestamp_to_civil(seconds, nanos, off) {
        Ok((year, month, day, hour, minute, second, nanosecond)) => Ok(
            DateTime {
                year: year as i32,
                month: month as u32,
                day: day as u32,
                hour: hour as u32,
                minute: minute as u32,
                second: second as u32,
                nanosecond: nanosecond as u32,
                time_zone_offset_seconds: off,
                time_zone_id: Some(name),
            },
        ),
        Err(()) => Err(MgError::InvalidTimestamp),
    }
}

/// The zoned datetime that the wire form (seconds and nanoseconds since the epoch, and a
/// zone name) stands for. The nanoseconds are narrowed to 32 bits; a missing name means
/// UTC. The zone named so is looked up, at that instant, in the machine's zone database,
/// and the result is what `datetime_at_offset` makes of what the lookup gave: a name the
/// database does not know is treated as UTC, and UTC always has offset zero.
pub fn mg_value_datetime_zone_id(seconds: i64, nanoseconds: i64, timezone_name: Option<String>) -> (r: Result<DateTime, MgError>)
    ensures
        r is Ok <==> is_valid_timestamp(seconds as int, (nanoseconds as i32) as int),
        r matches Ok(dt) ==> {
            &&& -max_offset_seconds() <= dt.time_zone_offset_seconds <= max_offset_seconds()
            &&& is_datetime_at(
                dt,
                seconds as int,
                (nanoseconds as i32) as int,
                zone_name_or_utc(timezone_name),
                dt.time_zone_offset_seconds as int,
            )
            &&& zone_name_or_utc(timezone_name) == "UTC"@ ==> dt.time_zone_offset_seconds == 0
            &&& exists|found: Option<i32>|
                #[trigger] zone_lookup_gave(zone_name_or_utc(timezone_name), seconds, nanoseconds as i32, found)
                    && dt.time_zone_offset_seconds == offset_or_utc(found)
        },
        r matches Err(e) ==> e is InvalidTimestamp,
{
    let nanos: i32 = #[verifier::truncate] (nanoseconds as i32);
    match timestamp_to_civil(seconds, nanos, 0) {
        Ok(_) => {},
        Err(()) => {
            return Err(MgError::InvalidTimestamp);
        },
    }
    let name = match timezone_name {
        Some(n) => n,
        None => String::from_str("UTC"),
    };
    let lookup_name = name.as_str();
    let offset = zone_offset_seconds(lookup_name, seconds, nanos);
    proof {
        assert(call_ensures(zone_offset_seconds, (lookup_name, seconds, nanos), offset));
        assert(zone_lookup_gave(name@, seconds, nanos, offset));
    }
    let ghost zone = name@;
    let r = datetime_at_offset(seconds, nanos, name, offset);
    proof {
        if r is Ok {
            let dt = r->Ok_0;
            assert(zone == zone_name_or_utc(timezone_name));
            assert(dt.time_zone_offset_seconds == offset_or_utc(offset));
            assert(zone_lookup_gave(zone_name_or_utc(timezone_name), seconds, nanoseconds as i32, offset));
        }
    }
    r
}

/// Decimal text of `n` zero-padded to `width` characters, the width counting a leading
/// minus sign.
pub open spec fn signed_zero_pad(n: int, width: nat) -> Seq<char> {
    if n < 0 {
        seq!['-'] + zero_pad(decimal((-n) as nat), (width - 1) as nat)
    } else {
        zero_pad(decimal(n as nat), width)
    }
}

/// Date part of the text of a zoned datetime: `YYYY-MM-DD`, the year padded to four
/// characters.
pub open spec fn datetime_date_text(x: DateTime) -> Seq<char> {
    signed_zero_pad(x.year as int, 4) + seq!['-'] + two_digits(x.month as int) + seq!['-']
        + two_digits(x.day as int)
}

/// Time part of the text of a zoned datetime: `HH:MM:SS.NNNNNNNNN`.
pub open spec fn datetime_time_text(x: DateTime) -> Seq<char> {
    two_digits(x.hour as int) + seq![':'] + two_digits(x.minute as int) + seq![':'] + two_digits(
        x.second as int,
    ) + seq!['.'] + zero_pad(decimal(x.nanosecond as nat), 9)
}

/// Offset part of the text of a zoned datetime: sign, hours and minutes, `+HH:MM`.
pub open spec fn datetime_offset_text(x: DateTime) -> Seq<char> {
    let off = abs(x.time_zone_offset_seconds as int);
    (if x.time_zone_offset_seconds >= 0 {
        seq!['+']
    } else {
        seq!['-']
    }) + two_digits(off / 3600) + seq![':'] + two_digits((off % 3600) / 60)
}

/// Text of a zoned datetime: `YYYY-MM-DD HH:MM:SS.NNNNNNNNN +HH:MM`.
pub open spec fn datetime_text(x: DateTime) -> Seq<char> {
    datetime_date_text(x) + seq![' '] + datetime_time_text(x) + seq![' '] + datetime_offset_text(x)
}

fn push_datetime_date(s: &mut String, x: &DateTime)
    ensures
        final(s)@ == old(s)@ + datetime_date_text(*x),
{
    if x.year < 0 {
        s.push('-');
        let m: u64 = (-(x.year as i64)) as u64;
        push_zero_padded(s, m, 3);
    } else {
        push_zero_padded(s, x.year as u64, 4);
    }
    s.push('-');
    push_zero_padded(s, x.month as u64, 2);
    s.push('-');
    push_zero_padded(s, x.day as u64, 2);
    assert(s@ =~= old(s)@ + datetime_date_text(*x));
}

fn push_datetime_time(s: &mut String, x: &DateTime)
    ensures
        final(s)@ == old(s)@ + datetime_time_text(*x),
{
    push_zero_padded(s, x.hour as u64, 2);
    s.push(':');
    push_zero_padded(s, x.minute as u64, 2);
    s.push(':');
    push_zero_padded(s, x.second as u64, 2);
    s.push('.');
    push_zero_padded(s, x.nanosecond as u64, 9);
    assert(s@ =~= old(s)@ + datetime_time_text(*x));
}

fn push_datetime_offset(s: &mut String, x: &DateTime)
    requires
        x.time_zone_offset_seconds != i32::MIN,
    ensures
        final(s)@ == old(s)@ + datetime_offset_text(*x),
{
    if x.time_zone_offset_seconds >= 0 {
        s.push('+');
    } else {
        s.push('-');
    }
    let off: i32 = if x.time_zone_offset_seconds < 0 {
        -x.time_zone_offset_seconds
    } else {
        x.time_zone_offset_seconds
    };
    push_zero_padded(s, (off / 3600) as u64, 2);
    s.push(':');
    push_zero_padded(s, ((off % 3600) / 60) as u64, 2);
    assert(s@ =~= old(s)@ + datetime_offset_text(*x));
}

/// Two-digit text of a number below one hundred: its tens digit and its units digit.
pub proof fn lemma_two_digits(n: int)
    requires
        0 <= n < 100,
    ensures
        two_digits(n) == seq![digit_char((n / 10) as nat), digit_char((n % 10) as nat)],
{
    reveal_with_fuel(decimal, 2);
    if n < 10 {
        assert(digit_char(0) == '0');
        assert(zeros(1) =~= seq!['0']);
        assert(two_digits(n) =~= seq![digit_char((n / 10) as nat), digit_char((n % 10) as nat)]);
    } else {
        assert(decimal(n as nat) =~= seq![digit_char((n / 10) as nat), digit_char((n % 10) as nat)]);
    }
}

/// The text of a zoned datetime ends with its offset: `+` when the offset is zero or
/// positive and `-` when it is negative, then the hours and minutes of its magnitude, as
/// `HH:MM`.
pub proof fn lemma_datetime_text_ends_with_offset(x: DateTime)
    ensures
        ({
            let o = x.time_zone_offset_seconds as int;
            let m = if o < 0 { -o } else { o };
            let tail = seq![if o >= 0 { '+' } else { '-' }] + two_digits(m / 3600) + seq![':']
                + two_digits((m % 3600) / 60);
            let t = datetime_text(x);
            t.len() >= tail.len() && t.subrange(t.len() - tail.len(), t.len() as int) == tail
        }),
{
    let o = x.time_zone_offset_seconds as int;
    let m = if o < 0 { -o } else { o };
    let tail = seq![if o >= 0 { '+' } else { '-' }] + two_digits(m / 3600) + seq![':']
        + two_digits((m % 3600) / 60);
    let head = datetime_date_text(x) + seq![' '] + datetime_time_text(x) + seq![' '];
    assert(datetime_text(x) =~= head + tail);
    assert((head + tail).subrange(head.len() as int, (head + tail).len() as int) =~= tail);
}

impl DateTime {
    /// Text of this zoned datetime, such as `2024-04-21 14:15:00.000000000 +00:00`.
    pub fn to_string(&self) -> (s: String)
        requires
            self.time_zone_offset_seconds != i32::MIN,
        ensures
            s@ == datetime_text(*self),
            ({
                let o = self.time_zone_offset_seconds as int;
                let m = if o < 0 { -o } else { o };
                let tail = seq![if o >= 0 { '+' } else { '-' }] + two_digits(m / 3600) + seq![':']
                    + two_digits((m % 3600) / 60);
                s@.len() >= tail.len() && s@.subrange(s@.len() - tail.len(), s@.len() as int) == tail
            }),
    {
        proof {
            lemma_datetime_text_ends_with_offset(*self);
        }
        let mut s = String::new();
        push_datetime_date(&mut s, self);
        s.push(' ');
        push_datetime_time(&mut s, self);
        s.push(' ');
        push_datetime_offset(&mut s, self);
        assert(s@ =~= datetime_text(*self));
        s
    }
}

// ---------------------------------------------------------------------------------------
// Strings
// ---------------------------------------------------------------------------------------

/// The text of a C string's bytes (without the terminating NUL): the bytes decoded as UTF-8,
/// each invalid sequence replaced by U+FFFD.
pub fn c_string_to_string(bytes: &[u8]) -> (s: String)
    ensures
        s@ == lossy_text(bytes@),
        valid_utf8(bytes@) ==> s@ == decode_utf8(bytes@),
        !valid_utf8(bytes@) ==> s@.contains('\u{FFFD}'),
{
    utf8_lossy_text(bytes)
}


/// The wire form of a string: its UTF-8 bytes, or `None` when it holds a NUL character,
/// which a C string cannot carry (such a string parameter is sent as null, such a map key
/// is left out).
pub fn string_to_wire(text: &str) -> (r: Option<Vec<u8>>)
    ensures
        r is None <==> text@.contains('\0'),
        r matches Some(bytes) ==> bytes@ == encode_utf8(text@),
{
    if contains_nul(text) {
        None
    } else {
        Some(text.as_bytes_vec())
    }
}

/// The wire form of a string reads back as the same string: its bytes are valid UTF-8
/// and decode to it, so `c_string_to_string` gives it back.
pub proof fn lemma_string_round_trip(text: Seq<char>)
    ensures
        valid_utf8(encode_utf8(text)),
        decode_utf8(encode_utf8(text)) == text,
{
    vstd::utf8::encode_utf8_valid_utf8(text);
    vstd::utf8::encode_utf8_decode_utf8(text);
}

} // verus!
