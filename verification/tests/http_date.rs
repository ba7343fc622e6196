use clawdmeter::http_date::{parse_http_date, timestamp_from_fields};
use clawdmeter::usage::rate_limit_fields;

#[test]
fn parses_the_documented_example() {
    assert_eq!(parse_http_date("Thu, 15 May 2026 17:18:08 GMT"), 1_778_865_488);
}

#[test]
fn epoch_and_first_second() {
    assert_eq!(parse_http_date("Thu, 01 Jan 1970 00:00:00 GMT"), 0);
    assert_eq!(parse_http_date("Thu, 01 Jan 1970 00:00:01 GMT"), 1);
}

#[test]
fn leap_day_and_century_years() {
    assert_eq!(parse_http_date("Thu, 29 Feb 2024 12:00:00 GMT"), 1_709_208_000);
    assert_eq!(parse_http_date("Sun, 31 Dec 2000 23:59:59 GMT"), 978_307_199);
    // 2100 is not a leap year: 1 Mar 2100 follows 28 Feb 2100 by one day.
    let feb28 = parse_http_date("Sun, 28 Feb 2100 00:00:00 GMT");
    let mar01 = parse_http_date("Mon, 01 Mar 2100 00:00:00 GMT");
    assert_eq!(mar01 - feb28, 86_400);
}

#[test]
fn any_white_space_separates_fields() {
    assert_eq!(parse_http_date("Thu,  15\tMay 2026\u{a0}17:18:08 GMT"), 1_778_865_488);
    assert_eq!(parse_http_date("  Thu, 15 May 2026 17:18:08 GMT  "), 1_778_865_488);
}

#[test]
fn malformed_dates_give_zero() {
    assert_eq!(parse_http_date(""), 0);
    assert_eq!(parse_http_date("yesterday"), 0);
    assert_eq!(parse_http_date("Thu, 15 May 2026 17:18:08"), 0);
    assert_eq!(parse_http_date("Thu, 15 May 2026 17:18 GMT"), 0);
    assert_eq!(parse_http_date("Thu, 15 may 2026 17:18:08 GMT"), 0);
    assert_eq!(parse_http_date("Thu, 15 Mai 2026 17:18:08 GMT"), 0);
}

#[test]
fn unreadable_numbers_are_a_failure() {
    assert_eq!(parse_http_date("Thu, 15 May 2026 17:18:xx GMT"), 0);
    assert_eq!(parse_http_date("Thu, 15 May 2026 xx:18:08 GMT"), 0);
    assert_eq!(parse_http_date("Thu, 15 May abcd 17:18:08 GMT"), 0);
    assert_eq!(parse_http_date("Thu, x5 May 2026 17:18:08 GMT"), 0);
    assert_eq!(parse_http_date("Thu, 15 May 2026 17::08 GMT"), 0);
}

#[test]
fn day_zero_steps_back_one_day() {
    assert_eq!(parse_http_date("Thu, 00 May 2026 00:00:00 GMT"), 1_777_507_200);
}

#[test]
fn years_before_the_epoch_wrap_around() {
    assert_eq!(parse_http_date("Wed, 31 Dec 1969 23:59:59 GMT"), u32::MAX);
    assert_eq!(parse_http_date("Wed, 00 Jan 0 00:00:00 GMT"), 2_257_266_048);
}

#[test]
fn too_many_fields_or_parts_are_a_failure() {
    assert_eq!(parse_http_date("Thu, 15 May 2026 17:18:08 GMT x y z"), 0);
    assert_eq!(parse_http_date("Thu, 15 May 2026 17:18:08 GMT x y"), 1_778_865_488);
    assert_eq!(parse_http_date("Thu, 15 May 2026 1:2:3:4:5 GMT"), 0);
    assert_eq!(parse_http_date("Thu, 15 May 2026 17:18:08:99 GMT"), 1_778_865_488);
}

#[test]
fn timestamp_of_fields() {
    assert_eq!(timestamp_from_fields(2026, 5, 15, 17, 18, 8), 1_778_865_488);
    assert_eq!(timestamp_from_fields(1970, 1, 1, 0, 0, 0), 0);
    assert_eq!(timestamp_from_fields(2106, 2, 7, 6, 28, 15), u32::MAX);
}

#[test]
fn u32_numerals() {
    let reset = |v: &str| rate_limit_fields(Some(v), None, None).reset_5h;
    assert_eq!(reset("42"), 42);
    assert_eq!(reset("+7"), 7);
    assert_eq!(reset("007"), 7);
    assert_eq!(reset("4294967295"), u32::MAX);
    assert_eq!(reset("4294967296"), 0);
    assert_eq!(reset("-1"), 0);
    assert_eq!(reset("+"), 0);
    assert_eq!(reset(""), 0);
    assert_eq!(reset(" 1"), 0);
    assert_eq!(reset("1.5"), 0);
}

#[test]
fn later_dates_read_larger() {
    let a = parse_http_date("Mon, 31 Mar 2025 23:59:59 GMT");
    let b = parse_http_date("Tue, 01 Apr 2025 00:00:00 GMT");
    let c = parse_http_date("Wed, 01 Apr 2026 00:00:00 GMT");
    assert!(a < b && b < c);
    assert_eq!(b, a + 1);
}

#[test]
fn next_second_across_the_year_end() {
    let a = parse_http_date("Wed, 31 Dec 2025 23:59:59 GMT");
    let b = parse_http_date("Thu, 01 Jan 2026 00:00:00 GMT");
    assert_eq!(b, a + 1);
    let a = parse_http_date("Thu, 29 Feb 2024 23:59:59 GMT");
    let b = parse_http_date("Fri, 01 Mar 2024 00:00:00 GMT");
    assert_eq!(b, a + 1);
}
