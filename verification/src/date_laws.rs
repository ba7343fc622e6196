//! A date written in the IMF-fixdate form of RFC 7231 reads back as its
//! Unix time.
use vstd::prelude::*;

use crate::calendar::{
    is_earlier, is_valid_date_time, lemma_days_before_year, lemma_next_second,
    lemma_unix_time_increases, next_second, unix_time,
};
use crate::http_date::{
    closed_fields, closed_pieces, colon_pieces, http_date_value,
    lemma_wrapping_timestamp_exact, month_number, open_field_start, piece_start,
    whitespace_fields,
};
use crate::text::{
    all_digits, decimal, decimal_value, digit_char, digit_value, is_white_space, lemma_decimal_value,
    two_digits, u32_numeral,
};

verus! {

/// No character of `w` is white space.
pub open spec fn no_white_space(w: Seq<char>) -> bool {
    forall|i: int| 0 <= i < w.len() ==> !is_white_space(#[trigger] w[i])
}

/// No character of `w` is a colon.
pub open spec fn no_colon(w: Seq<char>) -> bool {
    forall|i: int| 0 <= i < w.len() ==> #[trigger] w[i] != ':'
}

/// The English abbreviation of month `mo` (1 = January).
pub open spec fn month_abbrev(mo: int) -> Seq<char> {
    if mo == 1 {
        "Jan"@
    } else if mo == 2 {
        "Feb"@
    } else if mo == 3 {
        "Mar"@
    } else if mo == 4 {
        "Apr"@
    } else if mo == 5 {
        "May"@
    } else if mo == 6 {
        "Jun"@
    } else if mo == 7 {
        "Jul"@
    } else if mo == 8 {
        "Aug"@
    } else if mo == 9 {
        "Sep"@
    } else if mo == 10 {
        "Oct"@
    } else if mo == 11 {
        "Nov"@
    } else {
        "Dec"@
    }
}

/// `hh:mm:ss`.
pub open spec fn clock_text(h: nat, mi: nat, s: nat) -> Seq<char> {
    two_digits(h) + seq![':'] + two_digits(mi) + seq![':'] + two_digits(s)
}

/// `<weekday> DD Mon YYYY hh:mm:ss GMT`, as in "Thu, 15 May 2026 17:18:08 GMT".
pub open spec fn imf_fixdate(weekday: Seq<char>, y: nat, mo: int, d: nat, h: nat, mi: nat, s: nat) -> Seq<char> {
    weekday + seq![' '] + two_digits(d) + seq![' '] + month_abbrev(mo) + seq![' '] + decimal(y) + seq![' ']
        + clock_text(h, mi, s) + seq![' '] + seq!['G', 'M', 'T']
}

// ─────────────────────────── fields at white space ───────────────────────────

proof fn lemma_open_bound(s: Seq<char>, n: int)
    ensures
        open_field_start(s, n) matches Some(b) ==> 0 <= b < n,
    decreases n,
{
    if n > 0 {
        lemma_open_bound(s, n - 1);
    }
}

/// The fields within a prefix do not depend on what follows it.
proof fn lemma_fields_prefix(s: Seq<char>, x: Seq<char>, n: int)
    requires
        0 <= n <= s.len(),
    ensures
        open_field_start(s + x, n) == open_field_start(s, n),
        closed_fields(s + x, n) == closed_fields(s, n),
    decreases n,
{
    if n > 0 {
        lemma_fields_prefix(s, x, n - 1);
        lemma_open_bound(s, n - 1);
        assert((s + x)[n - 1] == s[n - 1]);
        if let Some(b) = open_field_start(s, n - 1) {
            assert((s + x).subrange(b, n - 1) =~= s.subrange(b, n - 1));
        }
    }
}

/// Across a run of non-space characters that starts after a space (or at
/// the beginning), the open field starts at the run and nothing closes.
proof fn lemma_word_run(s: Seq<char>, start: int, k: int)
    requires
        0 <= start,
        0 <= k,
        start + k <= s.len(),
        forall|i: int| start <= i < start + k ==> !is_white_space(#[trigger] s[i]),
        open_field_start(s, start) is None,
    ensures
        k > 0 ==> open_field_start(s, start + k) == Some(start),
        closed_fields(s, start + k) == closed_fields(s, start),
    decreases k,
{
    if k > 0 {
        lemma_word_run(s, start, k - 1);
    }
}

proof fn lemma_space_is_white()
    ensures
        is_white_space(' '),
{
}

/// A single word is one field.
proof fn lemma_fields_of_word(w: Seq<char>)
    requires
        w.len() > 0,
        no_white_space(w),
    ensures
        whitespace_fields(w) == seq![w],
        open_field_start(w, w.len() as int) == Some(0int),
{
    lemma_word_run(w, 0, w.len() as int);
    assert(w.subrange(0, w.len() as int) =~= w);
    assert(whitespace_fields(w) =~= seq![w]);
}

/// A space and a word after text that ends in a word add that word as a
/// field.
proof fn lemma_fields_append(s: Seq<char>, w: Seq<char>)
    requires
        open_field_start(s, s.len() as int) is Some,
        w.len() > 0,
        no_white_space(w),
    ensures
        whitespace_fields(s + seq![' '] + w) == whitespace_fields(s).push(w),
        open_field_start(s + seq![' '] + w, (s + seq![' '] + w).len() as int) is Some,
{
    let n = s.len() as int;
    let t = s + seq![' '] + w;
    let b = open_field_start(s, n)->0;
    lemma_open_bound(s, n);
    assert(t =~= s + (seq![' '] + w));
    lemma_fields_prefix(s, seq![' '] + w, n);
    lemma_space_is_white();
    assert(t[n] == ' ');
    assert(t.subrange(b, n) =~= s.subrange(b, n));
    assert(closed_fields(t, n + 1) == whitespace_fields(s));
    assert(open_field_start(t, n + 1) is None);
    assert forall|i: int| n + 1 <= i < n + 1 + w.len() implies !is_white_space(#[trigger] t[i]) by {
        assert(t[i] == w[i - n - 1]);
    }
    lemma_word_run(t, n + 1, w.len() as int);
    assert(t.len() == n + 1 + w.len());
    assert(t.subrange(n + 1, t.len() as int) =~= w);
}

/// The fields closed so far are non-empty runs without white space, and the
/// open field, if any, is one too.
proof fn lemma_closed_fields_are_words(s: Seq<char>, n: int)
    requires
        0 <= n <= s.len(),
    ensures
        forall|i: int|
            0 <= i < closed_fields(s, n).len() ==> (#[trigger] closed_fields(s, n)[i]).len() > 0
                && no_white_space(closed_fields(s, n)[i]),
        open_field_start(s, n) matches Some(b) ==> 0 <= b < n && forall|j: int|
            b <= j < n ==> !is_white_space(#[trigger] s[j]),
    decreases n,
{
    if n > 0 {
        lemma_closed_fields_are_words(s, n - 1);
        if is_white_space(s[n - 1]) {
            if let Some(b) = open_field_start(s, n - 1) {
                let w = s.subrange(b, n - 1);
                assert forall|k: int| 0 <= k < w.len() implies !is_white_space(#[trigger] w[k]) by {
                    assert(w[k] == s[b + k]);
                }
                let c = closed_fields(s, n);
                assert(c == closed_fields(s, n - 1).push(w));
                assert forall|i: int| 0 <= i < c.len() implies (#[trigger] c[i]).len() > 0 && no_white_space(
                    c[i],
                ) by {
                    if i < c.len() - 1 {
                        assert(c[i] == closed_fields(s, n - 1)[i]);
                    }
                }
            }
        }
    }
}

/// Splitting at white space gives non-empty fields without white space.
pub proof fn lemma_fields_are_words(s: Seq<char>)
    ensures
        forall|i: int|
            0 <= i < whitespace_fields(s).len() ==> (#[trigger] whitespace_fields(s)[i]).len() > 0
                && no_white_space(whitespace_fields(s)[i]),
{
    let n = s.len() as int;
    lemma_closed_fields_are_words(s, n);
    let f = whitespace_fields(s);
    if let Some(b) = open_field_start(s, n) {
        let w = s.subrange(b, n);
        assert forall|k: int| 0 <= k < w.len() implies !is_white_space(#[trigger] w[k]) by {
            assert(w[k] == s[b + k]);
        }
        assert forall|i: int| 0 <= i < f.len() implies (#[trigger] f[i]).len() > 0 && no_white_space(f[i]) by {
            if i < f.len() - 1 {
                assert(f[i] == closed_fields(s, n)[i]);
            }
        }
    }
}

// ─────────────────────────────── pieces at ':' ───────────────────────────────

proof fn lemma_piece_start_bound(t: Seq<char>, n: int)
    requires
        0 <= n,
    ensures
        0 <= piece_start(t, n) <= n,
    decreases n,
{
    if n > 0 {
        lemma_piece_start_bound(t, n - 1);
    }
}

proof fn lemma_pieces_prefix(t: Seq<char>, x: Seq<char>, n: int)
    requires
        0 <= n <= t.len(),
    ensures
        piece_start(t + x, n) == piece_start(t, n),
        closed_pieces(t + x, n) == closed_pieces(t, n),
    decreases n,
{
    if n > 0 {
        lemma_pieces_prefix(t, x, n - 1);
        lemma_piece_start_bound(t, n - 1);
        assert((t + x)[n - 1] == t[n - 1]);
        assert((t + x).subrange(piece_start(t, n - 1), n - 1) =~= t.subrange(piece_start(t, n - 1), n - 1));
    }
}

proof fn lemma_colon_free_run(t: Seq<char>, start: int, k: int)
    requires
        0 <= start,
        0 <= k,
        start + k <= t.len(),
        forall|i: int| start <= i < start + k ==> #[trigger] t[i] != ':',
    ensures
        piece_start(t, start + k) == piece_start(t, start),
        closed_pieces(t, start + k) == closed_pieces(t, start),
    decreases k,
{
    if k > 0 {
        lemma_colon_free_run(t, start, k - 1);
    }
}

proof fn lemma_pieces_of_word(w: Seq<char>)
    requires
        no_colon(w),
    ensures
        colon_pieces(w) == seq![w],
        piece_start(w, w.len() as int) == 0,
{
    lemma_colon_free_run(w, 0, w.len() as int);
    assert(w.subrange(0, w.len() as int) =~= w);
    assert(colon_pieces(w) =~= seq![w]);
}

proof fn lemma_pieces_append(t: Seq<char>, w: Seq<char>)
    requires
        no_colon(w),
    ensures
        colon_pieces(t + seq![':'] + w) == colon_pieces(t).push(w),
{
    let n = t.len() as int;
    let u = t + seq![':'] + w;
    assert(u =~= t + (seq![':'] + w));
    lemma_pieces_prefix(t, seq![':'] + w, n);
    lemma_piece_start_bound(t, n);
    assert(u[n] == ':');
    assert(u.subrange(piece_start(t, n), n) =~= t.subrange(piece_start(t, n), n));
    assert(closed_pieces(u, n + 1) == colon_pieces(t));
    assert(piece_start(u, n + 1) == n + 1);
    assert forall|i: int| n + 1 <= i < n + 1 + w.len() implies #[trigger] u[i] != ':' by {
        assert(u[i] == w[i - n - 1]);
    }
    lemma_colon_free_run(u, n + 1, w.len() as int);
    assert(u.subrange(n + 1, u.len() as int) =~= w);
}

// ─────────────────────────────── the numerals ───────────────────────────────

proof fn lemma_digit_char(d: int)
    requires
        0 <= d < 10,
    ensures
        '0' <= digit_char(d) <= '9',
        !is_white_space(digit_char(d)),
        digit_char(d) != ':',
        digit_char(d) != '+',
{
}

proof fn lemma_two_digits(n: nat)
    requires
        n < 100,
    ensures
        two_digits(n).len() == 2,
        no_white_space(two_digits(n)),
        no_colon(two_digits(n)),
        u32_numeral(two_digits(n)) == Some(n as u32),
{
    let t = two_digits(n);
    lemma_digit_char((n / 10) as int);
    lemma_digit_char((n % 10) as int);
    assert(t.drop_last() =~= seq![digit_char((n / 10) as int)]);
    assert(t.drop_last().drop_last() =~= Seq::<char>::empty());
    assert(digit_value(digit_char((n / 10) as int)) == n / 10);
    assert(digit_value(digit_char((n % 10) as int)) == n % 10);
    assert(decimal_value(t.drop_last()) == decimal_value(t.drop_last().drop_last()) * 10 + digit_value(
        t.drop_last().last(),
    ));
    assert(decimal_value(t.drop_last()) == n / 10);
    assert(decimal_value(t) == n);
    assert(all_digits(t));
}

proof fn lemma_decimal_word(y: nat)
    requires
        y <= u32::MAX,
    ensures
        decimal(y).len() > 0,
        no_white_space(decimal(y)),
        u32_numeral(decimal(y)) == Some(y as u32),
{
    lemma_decimal_value(y);
    assert forall|i: int| 0 <= i < decimal(y).len() implies !is_white_space(#[trigger] decimal(y)[i]) by {
        assert('0' <= decimal(y)[i] <= '9');
    }
    assert('0' <= decimal(y)[0] <= '9');
}

proof fn lemma_month_abbrev(mo: int)
    requires
        1 <= mo <= 12,
    ensures
        month_number(month_abbrev(mo)) == mo,
        month_abbrev(mo).len() == 3,
        no_white_space(month_abbrev(mo)),
{
    reveal_strlit("Jan");
    reveal_strlit("Feb");
    reveal_strlit("Mar");
    reveal_strlit("Apr");
    reveal_strlit("May");
    reveal_strlit("Jun");
    reveal_strlit("Jul");
    reveal_strlit("Aug");
    reveal_strlit("Sep");
    reveal_strlit("Oct");
    reveal_strlit("Nov");
    reveal_strlit("Dec");
    let m = month_abbrev(mo);
    if mo == 1 {
    } else if mo == 2 {
        assert(m[0] != "Jan"@[0] || m[1] != "Jan"@[1] || m[2] != "Jan"@[2]);
    } else if mo == 3 {
        assert(m[0] != "Jan"@[0] || m[1] != "Jan"@[1] || m[2] != "Jan"@[2]);
        assert(m[0] != "Feb"@[0] || m[1] != "Feb"@[1] || m[2] != "Feb"@[2]);
    } else if mo == 4 {
        assert(m[0] != "Jan"@[0] || m[1] != "Jan"@[1] || m[2] != "Jan"@[2]);
        assert(m[0] != "Feb"@[0] || m[1] != "Feb"@[1] || m[2] != "Feb"@[2]);
        assert(m[0] != "Mar"@[0] || m[1] != "Mar"@[1] || m[2] != "Mar"@[2]);
    } else if mo == 5 {
        assert(m[0] != "Jan"@[0] || m[1] != "Jan"@[1] || m[2] != "Jan"@[2]);
        assert(m[0] != "Feb"@[0] || m[1] != "Feb"@[1] || m[2] != "Feb"@[2]);
        assert(m[0] != "Mar"@[0] || m[1] != "Mar"@[1] || m[2] != "Mar"@[2]);
        assert(m[0] != "Apr"@[0] || m[1] != "Apr"@[1] || m[2] != "Apr"@[2]);
    } else if mo == 6 {
        assert(m[0] != "Jan"@[0] || m[1] != "Jan"@[1] || m[2] != "Jan"@[2]);
        assert(m[0] != "Feb"@[0] || m[1] != "Feb"@[1] || m[2] != "Feb"@[2]);
        assert(m[0] != "Mar"@[0] || m[1] != "Mar"@[1] || m[2] != "Mar"@[2]);
        assert(m[0] != "Apr"@[0] || m[1] != "Apr"@[1] || m[2] != "Apr"@[2]);
        assert(m[0] != "May"@[0] || m[1] != "May"@[1] || m[2] != "May"@[2]);
    } else if mo == 7 {
        assert(m[0] != "Jan"@[0] || m[1] != "Jan"@[1] || m[2] != "Jan"@[2]);
        assert(m[0] != "Feb"@[0] || m[1] != "Feb"@[1] || m[2] != "Feb"@[2]);
        assert(m[0] != "Mar"@[0] || m[1] != "Mar"@[1] || m[2] != "Mar"@[2]);
        assert(m[0] != "Apr"@[0] || m[1] != "Apr"@[1] || m[2] != "Apr"@[2]);
        assert(m[0] != "May"@[0] || m[1] != "May"@[1] || m[2] != "May"@[2]);
        assert(m[0] != "Jun"@[0] || m[1] != "Jun"@[1] || m[2] != "Jun"@[2]);
    } else if mo == 8 {
        assert(m[0] != "Jan"@[0] || m[1] != "Jan"@[1] || m[2] != "Jan"@[2]);
        assert(m[0] != "Feb"@[0] || m[1] != "Feb"@[1] || m[2] != "Feb"@[2]);
        assert(m[0] != "Mar"@[0] || m[1] != "Mar"@[1] || m[2] != "Mar"@[2]);
        assert(m[0] != "Apr"@[0] || m[1] != "Apr"@[1] || m[2] != "Apr"@[2]);
        assert(m[0] != "May"@[0] || m[1] != "May"@[1] || m[2] != "May"@[2]);
        assert(m[0] != "Jun"@[0] || m[1] != "Jun"@[1] || m[2] != "Jun"@[2]);
        assert(m[0] != "Jul"@[0] || m[1] != "Jul"@[1] || m[2] != "Jul"@[2]);
    } else if mo == 9 {
        assert(m[0] != "Jan"@[0] || m[1] != "Jan"@[1] || m[2] != "Jan"@[2]);
        assert(m[0] != "Feb"@[0] || m[1] != "Feb"@[1] || m[2] != "Feb"@[2]);
        assert(m[0] != "Mar"@[0] || m[1] != "Mar"@[1] || m[2] != "Mar"@[2]);
        assert(m[0] != "Apr"@[0] || m[1] != "Apr"@[1] || m[2] != "Apr"@[2]);
        assert(m[0] != "May"@[0] || m[1] != "May"@[1] || m[2] != "May"@[2]);
        assert(m[0] != "Jun"@[0] || m[1] != "Jun"@[1] || m[2] != "Jun"@[2]);
        assert(m[0] != "Jul"@[0] || m[1] != "Jul"@[1] || m[2] != "Jul"@[2]);
        assert(m[0] != "Aug"@[0] || m[1] != "Aug"@[1] || m[2] != "Aug"@[2]);
    } else if mo == 10 {
        assert(m[0] != "Jan"@[0] || m[1] != "Jan"@[1] || m[2] != "Jan"@[2]);
        assert(m[0] != "Feb"@[0] || m[1] != "Feb"@[1] || m[2] != "Feb"@[2]);
        assert(m[0] != "Mar"@[0] || m[1] != "Mar"@[1] || m[2] != "Mar"@[2]);
        assert(m[0] != "Apr"@[0] || m[1] != "Apr"@[1] || m[2] != "Apr"@[2]);
        assert(m[0] != "May"@[0] || m[1] != "May"@[1] || m[2] != "May"@[2]);
        assert(m[0] != "Jun"@[0] || m[1] != "Jun"@[1] || m[2] != "Jun"@[2]);
        assert(m[0] != "Jul"@[0] || m[1] != "Jul"@[1] || m[2] != "Jul"@[2]);
        assert(m[0] != "Aug"@[0] || m[1] != "Aug"@[1] || m[2] != "Aug"@[2]);
        assert(m[0] != "Sep"@[0] || m[1] != "Sep"@[1] || m[2] != "Sep"@[2]);
    } else if mo == 11 {
        assert(m[0] != "Jan"@[0] || m[1] != "Jan"@[1] || m[2] != "Jan"@[2]);
        assert(m[0] != "Feb"@[0] || m[1] != "Feb"@[1] || m[2] != "Feb"@[2]);
        assert(m[0] != "Mar"@[0] || m[1] != "Mar"@[1] || m[2] != "Mar"@[2]);
        assert(m[0] != "Apr"@[0] || m[1] != "Apr"@[1] || m[2] != "Apr"@[2]);
        assert(m[0] != "May"@[0] || m[1] != "May"@[1] || m[2] != "May"@[2]);
        assert(m[0] != "Jun"@[0] || m[1] != "Jun"@[1] || m[2] != "Jun"@[2]);
        assert(m[0] != "Jul"@[0] || m[1] != "Jul"@[1] || m[2] != "Jul"@[2]);
        assert(m[0] != "Aug"@[0] || m[1] != "Aug"@[1] || m[2] != "Aug"@[2]);
        assert(m[0] != "Sep"@[0] || m[1] != "Sep"@[1] || m[2] != "Sep"@[2]);
        assert(m[0] != "Oct"@[0] || m[1] != "Oct"@[1] || m[2] != "Oct"@[2]);
    } else if mo == 12 {
        assert(m[0] != "Jan"@[0] || m[1] != "Jan"@[1] || m[2] != "Jan"@[2]);
        assert(m[0] != "Feb"@[0] || m[1] != "Feb"@[1] || m[2] != "Feb"@[2]);
        assert(m[0] != "Mar"@[0] || m[1] != "Mar"@[1] || m[2] != "Mar"@[2]);
        assert(m[0] != "Apr"@[0] || m[1] != "Apr"@[1] || m[2] != "Apr"@[2]);
        assert(m[0] != "May"@[0] || m[1] != "May"@[1] || m[2] != "May"@[2]);
        assert(m[0] != "Jun"@[0] || m[1] != "Jun"@[1] || m[2] != "Jun"@[2]);
        assert(m[0] != "Jul"@[0] || m[1] != "Jul"@[1] || m[2] != "Jul"@[2]);
        assert(m[0] != "Aug"@[0] || m[1] != "Aug"@[1] || m[2] != "Aug"@[2]);
        assert(m[0] != "Sep"@[0] || m[1] != "Sep"@[1] || m[2] != "Sep"@[2]);
        assert(m[0] != "Oct"@[0] || m[1] != "Oct"@[1] || m[2] != "Oct"@[2]);
        assert(m[0] != "Nov"@[0] || m[1] != "Nov"@[1] || m[2] != "Nov"@[2]);
    }
    assert(m.len() == 3);
    assert(no_white_space(m));
}

// ─────────────────────────────── the law ───────────────────────────────

/// Reading a date header written as `<weekday> DD Mon YYYY hh:mm:ss GMT`
/// for a real date and time from 1970 on gives its Unix time, whenever that
/// fits in 32 bits.
pub proof fn lemma_formatted_date_reads_back(
    weekday: Seq<char>,
    y: u32,
    mo: u32,
    d: u32,
    h: u32,
    mi: u32,
    s: u32,
)
    requires
        weekday.len() > 0,
        no_white_space(weekday),
        is_valid_date_time(y as int, mo as int, d as int, h as int, mi as int, s as int),
        unix_time(y as int, mo as int, d as int, h as int, mi as int, s as int) <= u32::MAX,
    ensures
        http_date_value(imf_fixdate(weekday, y as nat, mo as int, d as nat, h as nat, mi as nat, s as nat))
            == unix_time(y as int, mo as int, d as int, h as int, mi as int, s as int),
{
    let dd = two_digits(d as nat);
    let mm = month_abbrev(mo as int);
    let yy = decimal(y as nat);
    let clock = clock_text(h as nat, mi as nat, s as nat);
    let gmt = seq!['G', 'M', 'T'];
    lemma_two_digits(d as nat);
    lemma_two_digits(h as nat);
    lemma_two_digits(mi as nat);
    lemma_two_digits(s as nat);
    lemma_month_abbrev(mo as int);
    lemma_decimal_word(y as nat);
    lemma_space_is_white();
    assert(!is_white_space(':'));
    assert(!is_white_space('G') && !is_white_space('M') && !is_white_space('T'));
    assert(no_white_space(gmt));
    assert forall|i: int| 0 <= i < clock.len() implies !is_white_space(#[trigger] clock[i]) by {
        if i < 2 {
            assert(clock[i] == two_digits(h as nat)[i]);
        } else if i == 2 || i == 5 {
            assert(clock[i] == ':');
        } else if i < 5 {
            assert(clock[i] == two_digits(mi as nat)[i - 3]);
        } else {
            assert(clock[i] == two_digits(s as nat)[i - 6]);
        }
    }
    // The fields.
    lemma_fields_of_word(weekday);
    let s1 = weekday + seq![' '] + dd;
    lemma_fields_append(weekday, dd);
    let s2 = s1 + seq![' '] + mm;
    lemma_fields_append(s1, mm);
    let s3 = s2 + seq![' '] + yy;
    lemma_fields_append(s2, yy);
    let s4 = s3 + seq![' '] + clock;
    lemma_fields_append(s3, clock);
    let s5 = s4 + seq![' '] + gmt;
    lemma_fields_append(s4, gmt);
    let full = imf_fixdate(weekday, y as nat, mo as int, d as nat, h as nat, mi as nat, s as nat);
    assert(full =~= s5);
    let f = whitespace_fields(full);
    assert(f =~= seq![weekday, dd, mm, yy, clock, gmt]);
    // The time.
    let hh = two_digits(h as nat);
    let mn = two_digits(mi as nat);
    let ss = two_digits(s as nat);
    lemma_pieces_of_word(hh);
    lemma_pieces_append(hh, mn);
    lemma_pieces_append(hh + seq![':'] + mn, ss);
    assert(clock =~= hh + seq![':'] + mn + seq![':'] + ss);
    assert(colon_pieces(clock) =~= seq![hh, mn, ss]);
    lemma_wrapping_timestamp_exact(y, mo, d, h, mi, s);
}

/// Of two date headers written in that form for real dates and times whose
/// Unix times fit in 32 bits, the later one reads as the larger timestamp.
pub proof fn lemma_later_date_reads_larger(
    w1: Seq<char>,
    y1: u32,
    mo1: u32,
    d1: u32,
    h1: u32,
    mi1: u32,
    s1: u32,
    w2: Seq<char>,
    y2: u32,
    mo2: u32,
    d2: u32,
    h2: u32,
    mi2: u32,
    s2: u32,
)
    requires
        w1.len() > 0,
        no_white_space(w1),
        w2.len() > 0,
        no_white_space(w2),
        is_valid_date_time(y1 as int, mo1 as int, d1 as int, h1 as int, mi1 as int, s1 as int),
        is_valid_date_time(y2 as int, mo2 as int, d2 as int, h2 as int, mi2 as int, s2 as int),
        unix_time(y1 as int, mo1 as int, d1 as int, h1 as int, mi1 as int, s1 as int) <= u32::MAX,
        unix_time(y2 as int, mo2 as int, d2 as int, h2 as int, mi2 as int, s2 as int) <= u32::MAX,
        is_earlier(
            y1 as int,
            mo1 as int,
            d1 as int,
            h1 as int,
            mi1 as int,
            s1 as int,
            y2 as int,
            mo2 as int,
            d2 as int,
            h2 as int,
            mi2 as int,
            s2 as int,
        ),
    ensures
        http_date_value(imf_fixdate(w1, y1 as nat, mo1 as int, d1 as nat, h1 as nat, mi1 as nat, s1 as nat))
            < http_date_value(
            imf_fixdate(w2, y2 as nat, mo2 as int, d2 as nat, h2 as nat, mi2 as nat, s2 as nat),
        ),
{
    lemma_formatted_date_reads_back(w1, y1, mo1, d1, h1, mi1, s1);
    lemma_formatted_date_reads_back(w2, y2, mo2, d2, h2, mi2, s2);
    lemma_unix_time_increases(
        y1 as int,
        mo1 as int,
        d1 as int,
        h1 as int,
        mi1 as int,
        s1 as int,
        y2 as int,
        mo2 as int,
        d2 as int,
        h2 as int,
        mi2 as int,
        s2 as int,
    );
}

/// The date header of the next second, across minute, hour, day, month and
/// year ends, reads as one more second, when its Unix time fits in 32 bits.
pub proof fn lemma_next_second_reads_one_more(
    w1: Seq<char>,
    w2: Seq<char>,
    y: u32,
    mo: u32,
    d: u32,
    h: u32,
    mi: u32,
    s: u32,
)
    requires
        w1.len() > 0,
        no_white_space(w1),
        w2.len() > 0,
        no_white_space(w2),
        is_valid_date_time(y as int, mo as int, d as int, h as int, mi as int, s as int),
        ({
            let n = next_second(y as int, mo as int, d as int, h as int, mi as int, s as int);
            unix_time(n.0, n.1, n.2, n.3, n.4, n.5) <= u32::MAX
        }),
    ensures
        ({
            let n = next_second(y as int, mo as int, d as int, h as int, mi as int, s as int);
            http_date_value(imf_fixdate(w2, n.0 as nat, n.1, n.2 as nat, n.3 as nat, n.4 as nat, n.5 as nat))
                == http_date_value(
                imf_fixdate(w1, y as nat, mo as int, d as nat, h as nat, mi as nat, s as nat),
            ) + 1
        }),
{
    let n = next_second(y as int, mo as int, d as int, h as int, mi as int, s as int);
    lemma_next_second(y as int, mo as int, d as int, h as int, mi as int, s as int);
    lemma_days_before_year(n.0);
    lemma_days_before_year(y as int);
    assert(n.0 <= u32::MAX);
    lemma_formatted_date_reads_back(w1, y, mo, d, h, mi, s);
    lemma_formatted_date_reads_back(
        w2,
        n.0 as u32,
        n.1 as u32,
        n.2 as u32,
        n.3 as u32,
        n.4 as u32,
        n.5 as u32,
    );
}

} // verus!
