//! The proleptic Gregorian calendar and civil time of day, as mathematical functions.
use vstd::prelude::*;

verus! {

/// Whether `y` is a leap year of the Gregorian calendar.
pub open spec fn is_leap_year(y: int) -> bool {
    (y % 4 == 0 && y % 100 != 0) || y % 400 == 0
}

/// Number of days in the year `y`.
pub open spec fn year_length(y: int) -> int {
    if is_leap_year(y) {
        366
    } else {
        365
    }
}

/// Number of days in month `m` (1 to 12) of year `y`.
pub open spec fn days_in_month(y: int, m: int) -> int {
    if m == 2 {
        if is_leap_year(y) {
            29
        } else {
            28
        }
    } else if m == 4 || m == 6 || m == 9 || m == 11 {
        30
    } else {
        31
    }
}

/// Whether year, month and day name a date the library accepts: years -9999 to 9999.
pub open spec fn is_valid_date(y: int, m: int, d: int) -> bool {
    &&& -9999 <= y <= 9999
    &&& 1 <= m <= 12
    &&& 1 <= d <= days_in_month(y, m)
}

/// Days from 0001-01-01 to the first day of year `y` (negative before year 1).
pub open spec fn days_before_year(y: int) -> int {
    let p = y - 1;
    365 * p + p / 4 - p / 100 + p / 400
}

/// Days from the first day of year `y` to the first day of month `m` of that year.
pub open spec fn days_before_month(y: int, m: int) -> int {
    let leap_day: int = if m > 2 && is_leap_year(y) {
        1
    } else {
        0
    };
    let base: int = if m == 1 {
        0
    } else if m == 2 {
        31
    } else if m == 3 {
        59
    } else if m == 4 {
        90
    } else if m == 5 {
        120
    } else if m == 6 {
        151
    } else if m == 7 {
        181
    } else if m == 8 {
        212
    } else if m == 9 {
        243
    } else if m == 10 {
        273
    } else if m == 11 {
        304
    } else {
        334
    };
    base + leap_day
}

/// Days from 1970-01-01 to the given date (negative before it).
pub open spec fn unix_epoch_day(y: int, m: int, d: int) -> int {
    days_before_year(y) + days_before_month(y, m) + d - 1 - days_before_year(1970)
}

/// Epoch day of -9999-01-01, the first date the library represents.
pub open spec fn min_epoch_day() -> int {
    -4371587
}

/// Epoch day of 9999-12-31, the last date the library represents.
pub open spec fn max_epoch_day() -> int {
    2932896
}

/// Whether hour, minute, second and sub-second nanosecond name a time of day.
pub open spec fn is_valid_time(h: int, mi: int, s: int, ns: int) -> bool {
    &&& 0 <= h <= 23
    &&& 0 <= mi <= 59
    &&& 0 <= s <= 59
    &&& 0 <= ns <= 999_999_999
}

/// Nanoseconds from midnight to the given time of day.
pub open spec fn time_of_day_nanos(h: int, mi: int, s: int, ns: int) -> int {
    (h * 3600 + mi * 60 + s) * 1_000_000_000 + ns
}

/// Nanoseconds from 1970-01-01T00:00:00 to the given civil date and time.
pub open spec fn civil_nanos(y: int, m: int, d: int, h: int, mi: int, s: int, ns: int) -> int {
    unix_epoch_day(y, m, d) * 86_400_000_000_000 + time_of_day_nanos(h, mi, s, ns)
}

/// Smallest count of seconds since the Unix epoch that a timestamp accepts.
pub open spec fn min_timestamp_second() -> int {
    -377705023201
}

/// Largest count of seconds since the Unix epoch that a timestamp accepts.
pub open spec fn max_timestamp_second() -> int {
    253402207200
}

/// Whether a count of seconds and a (possibly negative) sub-second count of nanoseconds
/// name an instant that a timestamp accepts.
pub open spec fn is_valid_timestamp(secs: int, nanos: int) -> bool {
    &&& min_timestamp_second() <= secs <= max_timestamp_second()
    &&& -999_999_999 <= nanos <= 999_999_999
    &&& !(secs == min_timestamp_second() && nanos < 0)
}

/// Largest magnitude, in seconds, of an offset from UTC.
pub open spec fn max_offset_seconds() -> int {
    93599
}

pub proof fn lemma_year_length(y: int)
    ensures
        days_before_year(y + 1) == days_before_year(y) + year_length(y),
{
    let p = y - 1;
    assert((p + 1) / 4 == p / 4 + (if y % 4 == 0 { 1int } else { 0 }));
    assert((p + 1) / 100 == p / 100 + (if y % 100 == 0 { 1int } else { 0 }));
    assert((p + 1) / 400 == p / 400 + (if y % 400 == 0 { 1int } else { 0 }));
}

pub proof fn lemma_days_before_year_increasing(a: int, b: int)
    requires
        a < b,
    ensures
        days_before_year(a) + year_length(a) <= days_before_year(b),
    decreases b - a,
{
    lemma_year_length(a);
    if a + 1 < b {
        lemma_days_before_year_increasing(a + 1, b);
        lemma_year_length(a + 1);
    }
}

/// The position of a valid date within its year lies in `0 .. year_length(y)`, and later
/// months come after earlier ones.
pub proof fn lemma_day_of_year(y: int, m: int, d: int)
    requires
        is_valid_date(y, m, d),
    ensures
        0 <= days_before_month(y, m) + d - 1 < year_length(y),
        days_before_month(y, m) + days_in_month(y, m) == (if m == 12 {
            year_length(y)
        } else {
            days_before_month(y, m + 1)
        }),
{
}

pub proof fn lemma_day_of_year_increasing(y: int, m1: int, d1: int, m2: int, d2: int)
    requires
        is_valid_date(y, m1, d1),
        is_valid_date(y, m2, d2),
        m1 < m2,
    ensures
        days_before_month(y, m1) + d1 < days_before_month(y, m2) + d2,
    decreases m2 - m1,
{
    lemma_day_of_year(y, m1, d1);
    if m1 + 1 < m2 {
        lemma_day_of_year_increasing(y, m1 + 1, 1, m2, d2);
    }
}

/// Distinct valid dates have distinct epoch days.
pub proof fn lemma_unix_epoch_day_injective(y1: int, m1: int, d1: int, y2: int, m2: int, d2: int)
    requires
        is_valid_date(y1, m1, d1),
        is_valid_date(y2, m2, d2),
        unix_epoch_day(y1, m1, d1) == unix_epoch_day(y2, m2, d2),
    ensures
        y1 == y2,
        m1 == m2,
        d1 == d2,
{
    lemma_day_of_year(y1, m1, d1);
    lemma_day_of_year(y2, m2, d2);
    if y1 < y2 {
        lemma_days_before_year_increasing(y1, y2);
    } else if y2 < y1 {
        lemma_days_before_year_increasing(y2, y1);
    }
    assert(y1 == y2);
    if m1 < m2 {
        lemma_day_of_year_increasing(y1, m1, d1, m2, d2);
    } else if m2 < m1 {
        lemma_day_of_year_increasing(y1, m2, d2, m1, d1);
    }
}

/// Valid dates lie between the first and the last representable epoch day.
pub proof fn lemma_unix_epoch_day_range(y: int, m: int, d: int)
    requires
        is_valid_date(y, m, d),
    ensures
        min_epoch_day() <= unix_epoch_day(y, m, d) <= max_epoch_day(),
{
    lemma_day_of_year(y, m, d);
    if y > -9999 {
        lemma_days_before_year_increasing(-9999, y);
    }
    if y < 9999 {
        lemma_days_before_year_increasing(y, 9999);
    }
    lemma_year_length(9999);
}

/// A valid time of day lies within one day, and distinct valid times differ in nanoseconds.
pub proof fn lemma_time_of_day(h1: int, mi1: int, s1: int, ns1: int, h2: int, mi2: int, s2: int, ns2: int)
    requires
        is_valid_time(h1, mi1, s1, ns1),
        is_valid_time(h2, mi2, s2, ns2),
    ensures
        0 <= time_of_day_nanos(h1, mi1, s1, ns1) < 86_400_000_000_000,
        time_of_day_nanos(h1, mi1, s1, ns1) == time_of_day_nanos(h2, mi2, s2, ns2) ==> h1 == h2
            && mi1 == mi2 && s1 == s2 && ns1 == ns2,
{
    let a = h1 * 3600 + mi1 * 60 + s1;
    let b = h2 * 3600 + mi2 * 60 + s2;
    if time_of_day_nanos(h1, mi1, s1, ns1) == time_of_day_nanos(h2, mi2, s2, ns2) {
        assert(a == b) by (nonlinear_arith)
            requires
                a * 1_000_000_000 + ns1 == b * 1_000_000_000 + ns2,
                0 <= ns1 < 1_000_000_000,
                0 <= ns2 < 1_000_000_000,
        ;
        assert(h1 * 3600 + (mi1 * 60 + s1) == h2 * 3600 + (mi2 * 60 + s2));
        assert(h1 == h2);
        assert(mi1 == mi2);
    }
}

/// Distinct valid civil datetimes name distinct instants.
pub proof fn lemma_civil_nanos_injective(
    y1: int, m1: int, d1: int, h1: int, mi1: int, s1: int, ns1: int,
    y2: int, m2: int, d2: int, h2: int, mi2: int, s2: int, ns2: int,
)
    requires
        is_valid_date(y1, m1, d1),
        is_valid_date(y2, m2, d2),
        is_valid_time(h1, mi1, s1, ns1),
        is_valid_time(h2, mi2, s2, ns2),
        civil_nanos(y1, m1, d1, h1, mi1, s1, ns1) == civil_nanos(y2, m2, d2, h2, mi2, s2, ns2),
    ensures
        y1 == y2 && m1 == m2 && d1 == d2 && h1 == h2 && mi1 == mi2 && s1 == s2 && ns1 == ns2,
{
    lemma_time_of_day(h1, mi1, s1, ns1, h2, mi2, s2, ns2);
    lemma_time_of_day(h2, mi2, s2, ns2, h1, mi1, s1, ns1);
    let e1 = unix_epoch_day(y1, m1, d1);
    let e2 = unix_epoch_day(y2, m2, d2);
    let t1 = time_of_day_nanos(h1, mi1, s1, ns1);
    let t2 = time_of_day_nanos(h2, mi2, s2, ns2);
    assert(e1 == e2) by (nonlinear_arith)
        requires
            e1 * 86_400_000_000_000 + t1 == e2 * 86_400_000_000_000 + t2,
            0 <= t1 < 86_400_000_000_000,
            0 <= t2 < 86_400_000_000_000,
    ;
    lemma_unix_epoch_day_injective(y1, m1, d1, y2, m2, d2);
}

} // verus!
