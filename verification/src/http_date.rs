//! The HTTP `Date` header ("Thu, 15 May 2026 17:18:08 GMT", RFC 7231)
//! turned into a Unix timestamp.
use vstd::prelude::*;

use crate::fixed_vec::{
    date_fields, date_fields_new, date_fields_push, date_fields_slice, time_parts,
    time_parts_new, time_parts_push, time_parts_slice,
};
use crate::calendar;
use crate::calendar::{days_in_month, days_before_month, days_before_year, is_leap_year, is_valid_date_time, unix_time};
use crate::text::{char_is_whitespace, is_white_space, parse_u32, str_equal, u32_numeral};

verus! {

// ───────────────────────── splitting at whitespace ─────────────────────────

/// Where the field that is still open after the first `n` characters began.
pub open spec fn open_field_start(s: Seq<char>, n: int) -> Option<int>
    decreases n,
{
    if n <= 0 {
        None
    } else if is_white_space(s[n - 1]) {
        None
    } else {
        match open_field_start(s, n - 1) {
            Some(b) => Some(b),
            None => Some(n - 1),
        }
    }
}

/// The fields that a whitespace character has closed within the first `n`
/// characters.
pub open spec fn closed_fields(s: Seq<char>, n: int) -> Seq<Seq<char>>
    decreases n,
{
    if n <= 0 {
        Seq::empty()
    } else if is_white_space(s[n - 1]) {
        match open_field_start(s, n - 1) {
            Some(b) => closed_fields(s, n - 1).push(s.subrange(b, n - 1)),
            None => closed_fields(s, n - 1),
        }
    } else {
        closed_fields(s, n - 1)
    }
}

/// The maximal runs of non-whitespace characters, in order (what
/// `str::split_whitespace` yields).
pub open spec fn whitespace_fields(s: Seq<char>) -> Seq<Seq<char>> {
    match open_field_start(s, s.len() as int) {
        Some(b) => closed_fields(s, s.len() as int).push(s.subrange(b, s.len() as int)),
        None => closed_fields(s, s.len() as int),
    }
}

// ───────────────────────────── splitting at ':' ─────────────────────────────

/// Where the piece that is still open after the first `n` characters began.
pub open spec fn piece_start(t: Seq<char>, n: int) -> int
    decreases n,
{
    if n <= 0 {
        0
    } else if t[n - 1] == ':' {
        n
    } else {
        piece_start(t, n - 1)
    }
}

/// The pieces that a `':'` has closed within the first `n` characters.
pub open spec fn closed_pieces(t: Seq<char>, n: int) -> Seq<Seq<char>>
    decreases n,
{
    if n <= 0 {
        Seq::empty()
    } else if t[n - 1] == ':' {
        closed_pieces(t, n - 1).push(t.subrange(piece_start(t, n - 1), n - 1))
    } else {
        closed_pieces(t, n - 1)
    }
}

/// The pieces between the `':'` characters, empty ones included (what
/// `str::split(':')` yields).
pub open spec fn colon_pieces(t: Seq<char>) -> Seq<Seq<char>> {
    closed_pieces(t, t.len() as int).push(t.subrange(piece_start(t, t.len() as int), t.len() as int))
}

/// The month number of an English three-letter month abbreviation, 0 for
/// anything else.
pub open spec fn month_number(m: Seq<char>) -> u32 {
    if m == "Jan"@ {
        1
    } else if m == "Feb"@ {
        2
    } else if m == "Mar"@ {
        3
    } else if m == "Apr"@ {
        4
    } else if m == "May"@ {
        5
    } else if m == "Jun"@ {
        6
    } else if m == "Jul"@ {
        7
    } else if m == "Aug"@ {
        8
    } else if m == "Sep"@ {
        9
    } else if m == "Oct"@ {
        10
    } else if m == "Nov"@ {
        11
    } else if m == "Dec"@ {
        12
    } else {
        0
    }
}

// ─────────────────────── the firmware's day arithmetic ───────────────────────

pub open spec fn wadd(a: u32, b: u32) -> u32 {
    vstd::wrapping::u32_specs::wrapping_add(a, b)
}

pub open spec fn wsub(a: u32, b: u32) -> u32 {
    vstd::wrapping::u32_specs::wrapping_sub(a, b)
}

pub open spec fn wmul(a: u32, b: u32) -> u32 {
    vstd::wrapping::u32_specs::wrapping_mul(a, b)
}

/// The month lengths in the table the firmware builds for a (non-)leap year.
pub open spec fn month_table(leap: bool) -> Seq<u32> {
    seq![31, if leap { 29 } else { 28 }, 31, 30, 31, 30, 31, 31, 30, 31, 30, 31]
}

/// Sum of the first `k` entries of the month table.
pub open spec fn table_prefix_sum(leap: bool, k: int) -> int
    decreases k,
{
    if k <= 0 {
        0
    } else {
        table_prefix_sum(leap, k - 1) + month_table(leap)[k - 1]
    }
}

/// The timestamp the firmware computes from the parsed numbers: days since
/// the epoch from a leap-day count, then seconds; every step wraps modulo
/// 2^32 (the firmware's release build), the leap-day correction saturates.
pub open spec fn wrapping_timestamp(y: u32, mon: u32, day: u32, h: u32, mi: u32, sec: u32) -> u32 {
    let y1 = wsub(y, 1);
    let leap_days = wadd(wsub(y1 / 4, y1 / 100), y1 / 400);
    let base = if leap_days < 477 { 0u32 } else { (leap_days - 477) as u32 };
    let year_days = wadd(wmul(wsub(y, 1970), 365), base);
    let leap = (y % 4 == 0 && y % 100 != 0) || y % 400 == 0;
    let yday = wsub(wadd(table_prefix_sum(leap, mon - 1) as u32, day), 1);
    wadd(wadd(wadd(wmul(wadd(year_days, yday), 86400), wmul(h, 3600)), wmul(mi, 60)), sec)
}

/// The value of a `Date` header: 0 on any failure to read it, that is
/// unless it has six to eight fields, the third is a month abbreviation,
/// the fifth has three or four `':'`-separated parts, and the day (second
/// field), the year (fourth field), hour, minute and second are all `u32`
/// numerals; then the timestamp of those numbers.
pub open spec fn http_date_value(s: Seq<char>) -> u32 {
    let f = whitespace_fields(s);
    if f.len() < 6 || f.len() > 8 {
        0
    } else if month_number(f[2]) == 0 {
        0
    } else {
        let t = colon_pieces(f[4]);
        if t.len() < 3 || t.len() > 4 {
            0
        } else {
            match (u32_numeral(f[1]), u32_numeral(f[3]), u32_numeral(t[0]), u32_numeral(t[1]), u32_numeral(t[2])) {
                (Some(day), Some(year), Some(h), Some(mi), Some(sec)) => wrapping_timestamp(
                    year,
                    month_number(f[2]),
                    day,
                    h,
                    mi,
                    sec,
                ),
                _ => 0,
            }
        }
    }
}

// ─────────────────────────── the arithmetic is exact ───────────────────────────

/// The month table sums to the calendar's days before a month.
proof fn lemma_table_prefix_sum(y: int, k: int)
    requires
        0 <= k <= 11,
    ensures
        table_prefix_sum(is_leap_year(y), k) == days_before_month(y, k + 1),
    decreases k,
{
    if k > 0 {
        lemma_table_prefix_sum(y, k - 1);
        assert(month_table(is_leap_year(y))[k - 1] == days_in_month(y, k));
    }
}

proof fn lemma_small_product(x: u32, c: u32)
    requires
        x as int * c as int <= u32::MAX,
    ensures
        wmul(x, c) == x * c,
{
    vstd::arithmetic::div_mod::lemma_small_mod((x as nat * c as nat), 0x1_0000_0000nat);
}

/// For a real date and time from 1970 on whose timestamp fits in 32 bits,
/// the firmware's wrapping day arithmetic gives exactly the Unix time.
pub proof fn lemma_wrapping_timestamp_exact(y: u32, mon: u32, day: u32, h: u32, mi: u32, sec: u32)
    requires
        is_valid_date_time(y as int, mon as int, day as int, h as int, mi as int, sec as int),
        unix_time(y as int, mon as int, day as int, h as int, mi as int, sec as int) <= u32::MAX,
    ensures
        wrapping_timestamp(y, mon, day, h, mi, sec) == unix_time(
            y as int,
            mon as int,
            day as int,
            h as int,
            mi as int,
            sec as int,
        ),
{
    let yi = y as int;
    calendar::lemma_days_before_year(yi);
    calendar::lemma_days_before_month_bound(yi, mon as int);
    lemma_table_prefix_sum(yi, mon - 1);
    let dby = days_before_year(yi);
    let dbm = days_before_month(yi, mon as int);
    let y1 = wsub(y, 1);
    assert(y1 == y - 1);
    let q = wsub(y1 / 4, y1 / 100);
    assert(q == y1 / 4 - y1 / 100);
    let leap_days = wadd(q, y1 / 400);
    assert(leap_days == (yi - 1) / 4 - (yi - 1) / 100 + (yi - 1) / 400);
    let base: u32 = if leap_days < 477 { 0u32 } else { (leap_days - 477) as u32 };
    assert(base == leap_days - 477);
    assert(dby * 86400 <= u32::MAX);
    assert(wsub(y, 1970) == y - 1970);
    lemma_small_product(wsub(y, 1970), 365);
    let year_days = wadd(wmul(wsub(y, 1970), 365), base);
    assert(year_days == dby);
    let leap = (y % 4 == 0 && y % 100 != 0) || y % 400 == 0;
    assert(leap == is_leap_year(yi));
    let tsum = table_prefix_sum(leap, mon - 1);
    assert(tsum == dbm);
    let yday = wsub(wadd(tsum as u32, day), 1);
    assert(yday == dbm + day - 1);
    let total_days = wadd(year_days, yday);
    assert(total_days == dby + dbm + day - 1);
    lemma_small_product(total_days, 86400);
    lemma_small_product(h, 3600);
    lemma_small_product(mi, 60);
}

// ───────────────────────────── lemmas on splitting ─────────────────────────────

proof fn lemma_closed_fields_monotone(s: Seq<char>, i: int, j: int)
    requires
        i <= j,
    ensures
        closed_fields(s, i).len() <= closed_fields(s, j).len(),
    decreases j - i,
{
    if i < j {
        lemma_closed_fields_monotone(s, i, j - 1);
    }
}

proof fn lemma_closed_pieces_monotone(t: Seq<char>, i: int, j: int)
    requires
        i <= j,
    ensures
        closed_pieces(t, i).len() <= closed_pieces(t, j).len(),
    decreases j - i,
{
    if i < j {
        lemma_closed_pieces_monotone(t, i, j - 1);
    }
}

// ───────────────────────────────── splitting ─────────────────────────────────

/// The fields of `s` at white space in a vector of eight; `None` when there
/// are more than eight.
fn split_date_fields<'a>(s: &'a str) -> (r: Option<heapless::Vec<&'a str, 8>>)
    ensures
        r is None <==> whitespace_fields(s@).len() > 8,
        r matches Some(v) ==> date_fields(v) == whitespace_fields(s@),
{
    let n = s.unicode_len();
    let mut v = date_fields_new();
    let mut start: Option<usize> = None;
    let mut i: usize = 0;
    while i < n
        invariant
            n == s@.len(),
            i <= n,
            date_fields(v) == closed_fields(s@, i as int),
            date_fields(v).len() <= 8,
            match start {
                Some(b) => open_field_start(s@, i as int) == Some(b as int) && b < i,
                None => open_field_start(s@, i as int) is None,
            },
        decreases n - i,
    {
        let c = s.get_char(i);
        if char_is_whitespace(c) {
            if let Some(b) = start {
                proof {
                    lemma_closed_fields_monotone(s@, i + 1, n as int);
                }
                let field = s.substring_char(b, i);
                if !date_fields_push(&mut v, field) {
                    return None;
                }
                start = None;
            }
        } else if start.is_none() {
            start = Some(i);
        }
        i = i + 1;
    }
    if let Some(b) = start {
        let field = s.substring_char(b, n);
        if !date_fields_push(&mut v, field) {
            return None;
        }
    }
    Some(v)
}

/// The parts of `t` at `':'` in a vector of four; `None` when there are more
/// than four.
fn split_time_parts<'a>(t: &'a str) -> (r: Option<heapless::Vec<&'a str, 4>>)
    ensures
        r is None <==> colon_pieces(t@).len() > 4,
        r matches Some(v) ==> time_parts(v) == colon_pieces(t@),
{
    let n = t.unicode_len();
    let mut v = time_parts_new();
    let mut start: usize = 0;
    let mut i: usize = 0;
    while i < n
        invariant
            n == t@.len(),
            i <= n,
            time_parts(v) == closed_pieces(t@, i as int),
            time_parts(v).len() <= 4,
            start == piece_start(t@, i as int),
            start <= i,
        decreases n - i,
    {
        let c = t.get_char(i);
        if c == ':' {
            proof {
                lemma_closed_pieces_monotone(t@, i + 1, n as int);
            }
            let piece = t.substring_char(start, i);
            if !time_parts_push(&mut v, piece) {
                return None;
            }
            start = i + 1;
        }
        i = i + 1;
    }
    let piece = t.substring_char(start, n);
    if !time_parts_push(&mut v, piece) {
        return None;
    }
    Some(v)
}

/// The month number of a three-letter English abbreviation, 0 otherwise.
fn month_of(m: &str) -> (r: u32)
    ensures
        r == month_number(m@),
{
    if str_equal(m, "Jan") {
        1
    } else if str_equal(m, "Feb") {
        2
    } else if str_equal(m, "Mar") {
        3
    } else if str_equal(m, "Apr") {
        4
    } else if str_equal(m, "May") {
        5
    } else if str_equal(m, "Jun") {
        6
    } else if str_equal(m, "Jul") {
        7
    } else if str_equal(m, "Aug") {
        8
    } else if str_equal(m, "Sep") {
        9
    } else if str_equal(m, "Oct") {
        10
    } else if str_equal(m, "Nov") {
        11
    } else if str_equal(m, "Dec") {
        12
    } else {
        0
    }
}

/// Seconds since the epoch from the parsed numbers, as the firmware computes
/// them (see `wrapping_timestamp`).
pub fn timestamp_from_fields(y: u32, mon: u32, day: u32, h: u32, m: u32, sec: u32) -> (r: u32)
    requires
        1 <= mon <= 12,
    ensures
        r == wrapping_timestamp(y, mon, day, h, m, sec),
        is_valid_date_time(y as int, mon as int, day as int, h as int, m as int, sec as int)
            && unix_time(y as int, mon as int, day as int, h as int, m as int, sec as int)
            <= u32::MAX ==> r == unix_time(
            y as int,
            mon as int,
            day as int,
            h as int,
            m as int,
            sec as int,
        ),
{
    let y1 = y.wrapping_sub(1);
    let leap_days = (y1 / 4).wrapping_sub(y1 / 100).wrapping_add(y1 / 400);
    let year_days = y.wrapping_sub(1970).wrapping_mul(365).wrapping_add(leap_days.saturating_sub(477));
    let is_leap = (y % 4 == 0 && y % 100 != 0) || y % 400 == 0;
    let month_days: [u32; 12] = [
        31,
        if is_leap { 29 } else { 28 },
        31,
        30,
        31,
        30,
        31,
        31,
        30,
        31,
        30,
        31,
    ];
    assert(month_days@ == month_table(is_leap));
    let months_before = (mon - 1) as usize;
    let mut sum: u32 = 0;
    let mut k: usize = 0;
    while k < months_before
        invariant
            months_before <= 11,
            k <= months_before,
            month_days@ == month_table(is_leap),
            sum == table_prefix_sum(is_leap, k as int),
            sum <= 31 * k,
        decreases months_before - k,
    {
        sum = sum + month_days[k];
        k = k + 1;
    }
    let yday = sum.wrapping_add(day).wrapping_sub(1);
    let r = year_days.wrapping_add(yday).wrapping_mul(86400).wrapping_add(h.wrapping_mul(3600)).wrapping_add(
        m.wrapping_mul(60),
    ).wrapping_add(sec);
    proof {
        if is_valid_date_time(y as int, mon as int, day as int, h as int, m as int, sec as int)
            && unix_time(y as int, mon as int, day as int, h as int, m as int, sec as int)
            <= u32::MAX {
            lemma_wrapping_timestamp_exact(y, mon, day, h, m, sec);
        }
    }
    r
}

/// Parses an RFC 7231 date such as `"Thu, 15 May 2026 17:18:08 GMT"` into a
/// Unix timestamp; 0 when it cannot be read (see `http_date_value`). The
/// weekday and the zone are not read.
pub fn parse_http_date(s: &str) -> (ts: u32)
    ensures
        ts == http_date_value(s@),
{
    let fields = match split_date_fields(s) {
        Some(f) => f,
        None => return 0,
    };
    let parts = date_fields_slice(&fields);
    if parts.len() < 6 {
        return 0;
    }
    let day = match parse_u32(parts[1]) {
        Some(d) => d,
        None => return 0,
    };
    let mon = month_of(parts[2]);
    if mon == 0 {
        return 0;
    }
    let year = match parse_u32(parts[3]) {
        Some(y) => y,
        None => return 0,
    };
    let times = match split_time_parts(parts[4]) {
        Some(t) => t,
        None => return 0,
    };
    let tparts = time_parts_slice(&times);
    if tparts.len() < 3 {
        return 0;
    }
    let h = match parse_u32(tparts[0]) {
        Some(h) => h,
        None => return 0,
    };
    let m = match parse_u32(tparts[1]) {
        Some(m) => m,
        None => return 0,
    };
    let sec = match parse_u32(tparts[2]) {
        Some(sec) => sec,
        None => return 0,
    };
    timestamp_from_fields(year, mon, day, h, m, sec)
}

} // verus!
