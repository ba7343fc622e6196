//! The proleptic Gregorian calendar and Unix time, as the reference against
//! which the date arithmetic of the firmware is proved.
use vstd::prelude::*;

verus! {

/// Gregorian leap year.
pub open spec fn is_leap_year(y: int) -> bool {
    (y % 4 == 0 && y % 100 != 0) || y % 400 == 0
}

/// Number of days of month `m` (1 = January) in year `y`.
pub open spec fn days_in_month(y: int, m: int) -> int {
    if m == 2 {
        if is_leap_year(y) {
            29
        } else {
            28
        }
    } else if m == 4 || m == 6 || m == 9 || m == 11 {
        30
    } else {
        31
    }
}

/// Days of year `y` before the first of month `m`.
pub open spec fn days_before_month(y: int, m: int) -> int
    decreases m,
{
    if m <= 1 {
        0
    } else {
        days_before_month(y, m - 1) + days_in_month(y, m - 1)
    }
}

pub open spec fn days_in_year(y: int) -> int {
    if is_leap_year(y) {
        366
    } else {
        365
    }
}

/// Days from 1970-01-01 to the first of January of year `y` (`y >= 1970`).
pub open spec fn days_before_year(y: int) -> int
    decreases y - 1970,
{
    if y <= 1970 {
        0
    } else {
        days_before_year(y - 1) + days_in_year(y - 1)
    }
}

/// Seconds from 1970-01-01T00:00:00Z to the given UTC date and time.
pub open spec fn unix_time(y: int, mo: int, d: int, h: int, mi: int, s: int) -> int {
    (days_before_year(y) + days_before_month(y, mo) + d - 1) * 86400 + h * 3600 + mi * 60 + s
}

/// A real UTC date and time from 1970 on.
pub open spec fn is_valid_date_time(y: int, mo: int, d: int, h: int, mi: int, s: int) -> bool {
    &&& y >= 1970
    &&& 1 <= mo <= 12
    &&& 1 <= d <= days_in_month(y, mo)
    &&& 0 <= h < 24
    &&& 0 <= mi < 60
    &&& 0 <= s < 60
}


/// Stepping a year forward adds one to `y / d` exactly when `d` divides `y`.
proof fn lemma_quotient_step(y: int)
    requires
        y >= 1,
    ensures
        y / 4 - (y - 1) / 4 == (if y % 4 == 0 { 1int } else { 0 }),
        y / 100 - (y - 1) / 100 == (if y % 100 == 0 { 1int } else { 0 }),
        y / 400 - (y - 1) / 400 == (if y % 400 == 0 { 1int } else { 0 }),
{
}

/// The count of leap days, `(y-1)/4 - (y-1)/100 + (y-1)/400`, less the 477
/// that fall before 1970, is the number of leap years from 1970 up to `y`.
pub proof fn lemma_days_before_year(y: int)
    requires
        y >= 1970,
    ensures
        days_before_year(y) == (y - 1970) * 365 + ((y - 1) / 4 - (y - 1) / 100 + (y - 1) / 400) - 477,
        (y - 1) / 4 - (y - 1) / 100 + (y - 1) / 400 >= 477,
    decreases y - 1970,
{
    if y > 1970 {
        lemma_days_before_year(y - 1);
        lemma_quotient_step(y - 1);
    }
}

/// Days before a month are at most the days of the whole year.
pub proof fn lemma_days_before_month_bound(y: int, m: int)
    requires
        1 <= m <= 12,
    ensures
        0 <= days_before_month(y, m) <= 335,
        days_before_month(y, m) + days_in_month(y, m) <= days_in_year(y),
        m == 12 ==> days_before_month(y, m) + days_in_month(y, m) == days_in_year(y),
{
    reveal_with_fuel(days_before_month, 12);
}

proof fn lemma_days_before_year_monotone(a: int, b: int)
    requires
        1970 <= a <= b,
    ensures
        days_before_year(a) <= days_before_year(b),
    decreases b - a,
{
    if a < b {
        lemma_days_before_year_monotone(a, b - 1);
    }
}

proof fn lemma_days_before_month_monotone(y: int, a: int, b: int)
    requires
        1 <= a <= b,
    ensures
        days_before_month(y, a) <= days_before_month(y, b),
    decreases b - a,
{
    if a < b {
        lemma_days_before_month_monotone(y, a, b - 1);
    }
}

/// `(y1, mo1, d1, h1, mi1, s1)` comes before `(y2, mo2, d2, h2, mi2, s2)`
/// in the order of the calendar.
pub open spec fn is_earlier(
    y1: int,
    mo1: int,
    d1: int,
    h1: int,
    mi1: int,
    s1: int,
    y2: int,
    mo2: int,
    d2: int,
    h2: int,
    mi2: int,
    s2: int,
) -> bool {
    ||| y1 < y2
    ||| y1 == y2 && mo1 < mo2
    ||| y1 == y2 && mo1 == mo2 && d1 < d2
    ||| y1 == y2 && mo1 == mo2 && d1 == d2 && h1 < h2
    ||| y1 == y2 && mo1 == mo2 && d1 == d2 && h1 == h2 && mi1 < mi2
    ||| y1 == y2 && mo1 == mo2 && d1 == d2 && h1 == h2 && mi1 == mi2 && s1 < s2
}

/// Days from the epoch to the day of a date.
pub open spec fn day_number(y: int, mo: int, d: int) -> int {
    days_before_year(y) + days_before_month(y, mo) + d - 1
}

proof fn lemma_day_number_in_year(y: int, mo: int, d: int)
    requires
        is_valid_date_time(y, mo, d, 0, 0, 0),
    ensures
        days_before_year(y) <= day_number(y, mo, d) < days_before_year(y + 1),
{
    lemma_days_before_month_bound(y, mo);
}

/// Unix time increases with the date: an earlier real date and time has the
/// smaller Unix time.
pub proof fn lemma_unix_time_increases(
    y1: int,
    mo1: int,
    d1: int,
    h1: int,
    mi1: int,
    s1: int,
    y2: int,
    mo2: int,
    d2: int,
    h2: int,
    mi2: int,
    s2: int,
)
    requires
        is_valid_date_time(y1, mo1, d1, h1, mi1, s1),
        is_valid_date_time(y2, mo2, d2, h2, mi2, s2),
        is_earlier(y1, mo1, d1, h1, mi1, s1, y2, mo2, d2, h2, mi2, s2),
    ensures
        unix_time(y1, mo1, d1, h1, mi1, s1) < unix_time(y2, mo2, d2, h2, mi2, s2),
{
    let n1 = day_number(y1, mo1, d1);
    let n2 = day_number(y2, mo2, d2);
    lemma_day_number_in_year(y1, mo1, d1);
    lemma_day_number_in_year(y2, mo2, d2);
    if y1 < y2 {
        lemma_days_before_year_monotone(y1 + 1, y2);
    } else if y1 == y2 && mo1 < mo2 {
        lemma_days_before_month_bound(y1, mo1);
        lemma_days_before_month_monotone(y1, mo1 + 1, mo2);
    }
    assert(n1 <= n2);
    assert(n1 < n2 || (h1 * 3600 + mi1 * 60 + s1 < h2 * 3600 + mi2 * 60 + s2));
    assert(unix_time(y1, mo1, d1, h1, mi1, s1) == n1 * 86400 + h1 * 3600 + mi1 * 60 + s1);
    assert(unix_time(y2, mo2, d2, h2, mi2, s2) == n2 * 86400 + h2 * 3600 + mi2 * 60 + s2);
}

/// The date and time one second later.
pub open spec fn next_second(y: int, mo: int, d: int, h: int, mi: int, s: int) -> (
    int,
    int,
    int,
    int,
    int,
    int,
) {
    if s < 59 {
        (y, mo, d, h, mi, s + 1)
    } else if mi < 59 {
        (y, mo, d, h, mi + 1, 0)
    } else if h < 23 {
        (y, mo, d, h + 1, 0, 0)
    } else if d < days_in_month(y, mo) {
        (y, mo, d + 1, 0, 0, 0)
    } else if mo < 12 {
        (y, mo + 1, 1, 0, 0, 0)
    } else {
        (y + 1, 1, 1, 0, 0, 0)
    }
}

/// One second later, across minute, hour, day, month and year ends, is one
/// more second of Unix time.
pub proof fn lemma_next_second(y: int, mo: int, d: int, h: int, mi: int, s: int)
    requires
        is_valid_date_time(y, mo, d, h, mi, s),
    ensures
        ({
            let n = next_second(y, mo, d, h, mi, s);
            &&& is_valid_date_time(n.0, n.1, n.2, n.3, n.4, n.5)
            &&& unix_time(n.0, n.1, n.2, n.3, n.4, n.5) == unix_time(y, mo, d, h, mi, s) + 1
        }),
{
    lemma_days_before_month_bound(y, mo);
    if mo < 12 {
        lemma_days_before_month_bound(y, mo + 1);
    }
    if s == 59 && mi == 59 && h == 23 && d == days_in_month(y, mo) {
        if mo < 12 {
            assert(days_before_month(y, mo + 1) == days_before_month(y, mo) + days_in_month(y, mo));
        } else {
            assert(days_before_year(y + 1) == days_before_year(y) + days_in_year(y));
            assert(days_before_month(y + 1, 1) == 0);
        }
    }
}

} // verus!
