//! The history and the snapshots of a frame: what the panel lists, what
//! a hover shows, and what a click makes current.

use crate::panel::edit::{Develop, Work};
use crate::panel::edit;
use crate::panel::mask::Editing;
use crate::panel::model::{Edit, Window};
use crate::text;
use vstd::prelude::*;

verus! {

// A moment as a date.

/// A leap year of the Gregorian calendar.
pub open spec fn is_leap(y: int) -> bool {
    y % 4 == 0 && (y % 100 != 0 || y % 400 == 0)
}

/// How long a month is.
pub open spec fn month_days(y: int, m: int) -> int {
    if m == 2 {
        if is_leap(y) {
            29
        } else {
            28
        }
    } else if m == 4 || m == 6 || m == 9 || m == 11 {
        30
    } else {
        31
    }
}

/// The days of the year before a month.
pub open spec fn days_before_month(y: int, m: int) -> int
    decreases m,
{
    if m <= 1 {
        0
    } else {
        days_before_month(y, m - 1) + month_days(y, m - 1)
    }
}

/// The days before a year, counted from the year one.
pub open spec fn days_before_year(y: int) -> int {
    365 * (y - 1) + (y - 1) / 4 - (y - 1) / 100 + (y - 1) / 400
}

/// A day of the calendar.
pub open spec fn is_date(y: int, m: int, d: int) -> bool {
    1 <= m <= 12 && 1 <= d <= month_days(y, m)
}

/// The days from the first of January 1970 to a date.
pub open spec fn day_number(y: int, m: int, d: int) -> int {
    days_before_year(y) - days_before_year(1970) + days_before_month(y, m) + d - 1
}

/// A year is as long as its months.
proof fn lemma_year_length(y: int)
    ensures
        days_before_year(y + 1) - days_before_year(y) == if is_leap(y) { 366int } else { 365 },
        days_before_month(y, 12) + 31 == if is_leap(y) { 366int } else { 365 },
{
    lemma_months(y);
    lemma_next_multiple(y, 4);
    lemma_next_multiple(y, 100);
    lemma_next_multiple(y, 400);
    lemma_multiples(y);
    let a = y - 1;
    assert(days_before_year(y + 1) - days_before_year(y) == 365 + (y / 4 - a / 4) - (y / 100 - a
        / 100) + (y / 400 - a / 400));
}

/// A multiple of 400 is one of 100, and one of 100 is one of 4.
proof fn lemma_multiples(y: int)
    ensures
        y % 400 == 0 ==> y % 100 == 0,
        y % 100 == 0 ==> y % 4 == 0,
{
    if y % 400 == 0 {
        let q = y / 400;
        assert(y == 100 * (4 * q));
    }
    if y % 100 == 0 {
        let q = y / 100;
        assert(y == 4 * (25 * q));
    }
}

/// Stepping onto a multiple of `k` is what moves the quotient by `k`.
proof fn lemma_next_multiple(y: int, k: int)
    requires
        k == 4 || k == 100 || k == 400,
    ensures
        y / k - (y - 1) / k == if y % k == 0 { 1int } else { 0 },
{
    if k == 4 {
        assert(y / 4 - (y - 1) / 4 == if y % 4 == 0 { 1int } else { 0 });
    } else if k == 100 {
        assert(y / 100 - (y - 1) / 100 == if y % 100 == 0 { 1int } else { 0 });
    } else {
        assert(y / 400 - (y - 1) / 400 == if y % 400 == 0 { 1int } else { 0 });
    }
}

/// The days before each month, counted.
proof fn lemma_months(y: int)
    ensures
        days_before_month(y, 1) == 0,
        days_before_month(y, 2) == 31,
        days_before_month(y, 3) == 59 + if is_leap(y) { 1int } else { 0 },
        days_before_month(y, 4) == 90 + if is_leap(y) { 1int } else { 0 },
        days_before_month(y, 5) == 120 + if is_leap(y) { 1int } else { 0 },
        days_before_month(y, 6) == 151 + if is_leap(y) { 1int } else { 0 },
        days_before_month(y, 7) == 181 + if is_leap(y) { 1int } else { 0 },
        days_before_month(y, 8) == 212 + if is_leap(y) { 1int } else { 0 },
        days_before_month(y, 9) == 243 + if is_leap(y) { 1int } else { 0 },
        days_before_month(y, 10) == 273 + if is_leap(y) { 1int } else { 0 },
        days_before_month(y, 11) == 304 + if is_leap(y) { 1int } else { 0 },
        days_before_month(y, 12) == 334 + if is_leap(y) { 1int } else { 0 },
{
    reveal_with_fuel(days_before_month, 13);
}

/// A date within its year counts fewer days than the next year.
proof fn lemma_within_year(y: int, m: int, d: int)
    requires
        is_date(y, m, d),
    ensures
        days_before_year(y) - days_before_year(1970) <= day_number(y, m, d),
        day_number(y, m, d) < days_before_year(y + 1) - days_before_year(1970),
{
    lemma_year_length(y);
    lemma_months(y);
}

proof fn lemma_years_grow(a: int, b: int)
    requires
        a <= b,
    ensures
        days_before_year(a) <= days_before_year(b),
    decreases b - a,
{
    if a < b {
        lemma_years_grow(a, b - 1);
        lemma_year_length(b - 1);
    }
}

/// No two dates have the same number of days behind them: a moment is
/// one date.
pub proof fn a_day_is_one_date(y: int, m: int, d: int, y2: int, m2: int, d2: int)
    requires
        is_date(y, m, d),
        is_date(y2, m2, d2),
        day_number(y, m, d) == day_number(y2, m2, d2),
    ensures
        y == y2 && m == m2 && d == d2,
{
    lemma_within_year(y, m, d);
    lemma_within_year(y2, m2, d2);
    if y < y2 {
        lemma_years_grow(y + 1, y2);
    }
    if y2 < y {
        lemma_years_grow(y2 + 1, y);
    }
    lemma_months(y);
}

/// A date and a time of day, in words.
pub open spec fn moment_text(y: int, m: int, d: int, h: int, min: int) -> Seq<char> {
    text::padded(y as nat, 4) + "-"@ + text::padded(m as nat, 2) + "-"@ + text::padded(d as nat, 2)
        + " "@ + text::padded(h as nat, 2) + ":"@ + text::padded(min as nat, 2) + " UTC"@
}

/// The date of the day `days` after the first of January 1970.
fn civil(days: u64) -> (r: (u64, u64, u64))
    requires
        days <= 213503982334601,
    ensures
        r.0 > 0,
        is_date(r.0 as int, r.1 as int, r.2 as int),
        day_number(r.0 as int, r.1 as int, r.2 as int) == days,
{
    // Counted from the first of March of the year zero, in eras of four
    // hundred years.
    let z: u64 = days + 719468;
    let era: u64 = z / 146097;
    let doe: u64 = z % 146097;
    let yoe: u64 = (doe - doe / 1460 + doe / 36524 - doe / 146096) / 365;
    proof {
        lemma_year_of_era(doe as int);
    }
    let doy: u64 = doe - (365 * yoe + yoe / 4 - yoe / 100);
    let mp: u64 = (5 * doy + 2) / 153;
    let d: u64 = doy - (153 * mp + 2) / 5 + 1;
    let m: u64 = if mp < 10 { mp + 3 } else { mp - 9 };
    let y: u64 = yoe + era * 400 + if m <= 2 { 1 } else { 0 };
    proof {
        lemma_civil(era as int, yoe as int, doy as int, y as int, m as int, d as int, days as int);
    }
    (y, m, d)
}

/// The year of an era that a day of it is in: its first of March is at
/// or before the day, and the next year's after it.
proof fn lemma_year_of_era(doe: int)
    requires
        0 <= doe < 146097,
    ensures
        ({
            let yoe = (doe - doe / 1460 + doe / 36524 - doe / 146096) / 365;
            let start = 365 * yoe + yoe / 4 - yoe / 100;
            &&& 0 <= yoe <= 399
            &&& 0 <= start <= doe
            &&& doe - start <= 365
            &&& doe - start == 365 ==> (yoe + 1) % 4 == 0 && ((yoe + 1) % 100 != 0 || yoe == 399)
        }),
{
}

#[verifier::rlimit(60)]
#[verifier::spinoff_prover]
proof fn lemma_civil(era: int, yoe: int, doy: int, y: int, m: int, d: int, days: int)
    requires
        era >= 0,
        0 <= yoe <= 399,
        0 <= doy <= 365,
        doy == 365 ==> (yoe + 1) % 4 == 0 && ((yoe + 1) % 100 != 0 || yoe == 399),
        days + 719468 == era * 146097 + 365 * yoe + yoe / 4 - yoe / 100 + doy,
        days >= 0,
        ({
            let mp = (5 * doy + 2) / 153;
            &&& d == doy - (153 * mp + 2) / 5 + 1
            &&& m == if mp < 10 { mp + 3 } else { mp - 9 }
            &&& y == yoe + era * 400 + if m <= 2 { 1int } else { 0 }
        }),
    ensures
        y > 0,
        is_date(y, m, d),
        day_number(y, m, d) == days,
{
    let mp = (5 * doy + 2) / 153;
    assert(0 <= mp <= 11);
    lemma_months(y);
    let by = yoe + era * 400;
    assert(by / 4 == era * 100 + yoe / 4);
    assert(by / 100 == era * 4 + yoe / 100);
    assert(by / 400 == era);
    assert(by % 4 == yoe % 4 && by % 100 == yoe % 100 && by % 400 == yoe);
    assert(days_before_year(by + 1) == era * 146097 + 365 * yoe + yoe / 4 - yoe / 100);
    lemma_year_length(by);
    assert(days_before_year(1970) == 719162);
    if m <= 2 {
        assert(y == by + 1);
        assert(is_leap(y) <==> ((yoe + 1) % 4 == 0 && ((yoe + 1) % 100 != 0 || yoe == 399)));
    } else {
        assert(y == by);
    }
}

/// The text of a moment: the date of its day, and the hour and minute of
/// it.
pub open spec fn is_moment(secs: u64, s: Seq<char>) -> bool {
    exists|y: int, m: int, d: int|
        {
            &&& #[trigger] is_date(y, m, d)
            &&& day_number(y, m, d) == secs / 86400
            &&& s == moment_text(y, m, d, (secs % 86400) as int / 3600, (secs % 3600) as int / 60)
        }
}

/// A moment as a date and a time, UTC.
pub fn date_of(secs: u64) -> (s: String)
    ensures
        is_moment(secs, s@),
{
    let days: u64 = secs / 86400;
    let (y, m, d) = civil(days);
    let h: u64 = (secs % 86400) / 3600;
    let min: u64 = (secs % 3600) / 60;
    let mut s = String::new();
    text::put_padded(&mut s, y, 4);
    s.append("-");
    text::put_padded(&mut s, m, 2);
    s.append("-");
    text::put_padded(&mut s, d, 2);
    s.append(" ");
    text::put_padded(&mut s, h, 2);
    s.append(":");
    text::put_padded(&mut s, min, 2);
    s.append(" UTC");
    proof {
        assert(s@ =~= moment_text(y as int, m as int, d as int, h as int, min as int));
        assert(is_date(y as int, m as int, d as int));
    }
    s
}

/// A date within the years of four digits.
proof fn lemma_four_digit_year(y: int, m: int, d: int)
    requires
        is_date(y, m, d),
        0 <= day_number(y, m, d) < 2932897,
    ensures
        1970 <= y <= 9999,
{
    lemma_within_year(y, m, d);
    if y < 1970 {
        lemma_years_grow(y + 1, 1970);
    }
    if y > 9999 {
        lemma_years_grow(10000, y);
        assert(days_before_year(10000) - days_before_year(1970) == 2932897);
    }
}

/// A later day is a later year, or a later month of it, or a later day of
/// that.
proof fn lemma_later_day(y: int, m: int, d: int, y2: int, m2: int, d2: int)
    requires
        is_date(y, m, d),
        is_date(y2, m2, d2),
        day_number(y, m, d) < day_number(y2, m2, d2),
    ensures
        y < y2 || (y == y2 && (m < m2 || (m == m2 && d < d2))),
{
    lemma_within_year(y, m, d);
    lemma_within_year(y2, m2, d2);
    if y2 < y {
        lemma_years_grow(y2 + 1, y);
    }
    lemma_months(y);
}

/// The parts of a moment's text, put together.
pub open spec fn written(
    ty: Seq<char>,
    tm: Seq<char>,
    td: Seq<char>,
    th: Seq<char>,
    tn: Seq<char>,
) -> Seq<char> {
    ty + "-"@ + tm + "-"@ + td + " "@ + th + ":"@ + tn + " UTC"@
}

/// Texts that begin alike and then differ in a part of one length.
proof fn lemma_part(p: Seq<char>, f: Seq<char>, f2: Seq<char>, r: Seq<char>, q: Seq<char>)
    requires
        text::earlier(f, f2),
        f.len() == f2.len(),
    ensures
        text::earlier((p + f) + r, (p + f2) + q),
{
    text::lemma_earlier_back(p, f, f2);
    text::lemma_earlier_front(p + f, p + f2, r, q);
}

proof fn lemma_year_first(
    ty: Seq<char>,
    tm: Seq<char>,
    td: Seq<char>,
    th: Seq<char>,
    tn: Seq<char>,
    ty2: Seq<char>,
    tm2: Seq<char>,
    td2: Seq<char>,
    th2: Seq<char>,
    tn2: Seq<char>,
)
    requires
        text::earlier(ty, ty2),
        ty.len() == ty2.len(),
    ensures
        text::earlier(written(ty, tm, td, th, tn), written(ty2, tm2, td2, th2, tn2)),
{
    let p = Seq::<char>::empty();
    let r = "-"@ + tm + "-"@ + td + " "@ + th + ":"@ + tn + " UTC"@;
    let q = "-"@ + tm2 + "-"@ + td2 + " "@ + th2 + ":"@ + tn2 + " UTC"@;
    lemma_part(p, ty, ty2, r, q);
    assert(written(ty, tm, td, th, tn) =~= (p + ty) + r);
    assert(written(ty2, tm2, td2, th2, tn2) =~= (p + ty2) + q);
}

proof fn lemma_month_first(
    ty: Seq<char>,
    tm: Seq<char>,
    td: Seq<char>,
    th: Seq<char>,
    tn: Seq<char>,
    tm2: Seq<char>,
    td2: Seq<char>,
    th2: Seq<char>,
    tn2: Seq<char>,
)
    requires
        text::earlier(tm, tm2),
        tm.len() == tm2.len(),
    ensures
        text::earlier(written(ty, tm, td, th, tn), written(ty, tm2, td2, th2, tn2)),
{
    let p = ty + "-"@;
    let r = "-"@ + td + " "@ + th + ":"@ + tn + " UTC"@;
    let q = "-"@ + td2 + " "@ + th2 + ":"@ + tn2 + " UTC"@;
    lemma_part(p, tm, tm2, r, q);
    assert(written(ty, tm, td, th, tn) =~= (p + tm) + r);
    assert(written(ty, tm2, td2, th2, tn2) =~= (p + tm2) + q);
}

proof fn lemma_day_first(
    ty: Seq<char>,
    tm: Seq<char>,
    td: Seq<char>,
    th: Seq<char>,
    tn: Seq<char>,
    td2: Seq<char>,
    th2: Seq<char>,
    tn2: Seq<char>,
)
    requires
        text::earlier(td, td2),
        td.len() == td2.len(),
    ensures
        text::earlier(written(ty, tm, td, th, tn), written(ty, tm, td2, th2, tn2)),
{
    let p = ty + "-"@ + tm + "-"@;
    let r = " "@ + th + ":"@ + tn + " UTC"@;
    let q = " "@ + th2 + ":"@ + tn2 + " UTC"@;
    lemma_part(p, td, td2, r, q);
    assert(written(ty, tm, td, th, tn) =~= (p + td) + r);
    assert(written(ty, tm, td2, th2, tn2) =~= (p + td2) + q);
}

proof fn lemma_hour_first(
    ty: Seq<char>,
    tm: Seq<char>,
    td: Seq<char>,
    th: Seq<char>,
    tn: Seq<char>,
    th2: Seq<char>,
    tn2: Seq<char>,
)
    requires
        text::earlier(th, th2),
        th.len() == th2.len(),
    ensures
        text::earlier(written(ty, tm, td, th, tn), written(ty, tm, td, th2, tn2)),
{
    let p = ty + "-"@ + tm + "-"@ + td + " "@;
    let r = ":"@ + tn + " UTC"@;
    let q = ":"@ + tn2 + " UTC"@;
    lemma_part(p, th, th2, r, q);
    assert(written(ty, tm, td, th, tn) =~= (p + th) + r);
    assert(written(ty, tm, td, th2, tn2) =~= (p + th2) + q);
}

proof fn lemma_minute_first(
    ty: Seq<char>,
    tm: Seq<char>,
    td: Seq<char>,
    th: Seq<char>,
    tn: Seq<char>,
    tn2: Seq<char>,
)
    requires
        text::earlier(tn, tn2),
        tn.len() == tn2.len(),
    ensures
        text::earlier(written(ty, tm, td, th, tn), written(ty, tm, td, th, tn2)),
{
    let p = ty + "-"@ + tm + "-"@ + td + " "@ + th + ":"@;
    let r = " UTC"@;
    let q = " UTC"@;
    lemma_part(p, tn, tn2, r, q);
    assert(written(ty, tm, td, th, tn) =~= (p + tn) + r);
    assert(written(ty, tm, td, th, tn2) =~= (p + tn2) + q);
}

/// How the text of a moment is before another that differs first in the
/// year, the month, the day, the hour or the minute.
proof fn lemma_moment_order(
    y: int,
    m: int,
    d: int,
    h: int,
    min: int,
    y2: int,
    m2: int,
    d2: int,
    h2: int,
    min2: int,
)
    requires
        0 <= y < 10000 && 0 <= y2 < 10000,
        0 <= m < 100 && 0 <= m2 < 100,
        0 <= d < 100 && 0 <= d2 < 100,
        0 <= h < 100 && 0 <= h2 < 100,
        0 <= min < 100 && 0 <= min2 < 100,
        y < y2 || (y == y2 && (m < m2 || (m == m2 && (d < d2 || (d == d2 && (h < h2 || (h == h2
            && min < min2))))))),
    ensures
        text::earlier(moment_text(y, m, d, h, min), moment_text(y2, m2, d2, h2, min2)),
{
    let (ty, ty2) = (text::padded(y as nat, 4), text::padded(y2 as nat, 4));
    let (tm, tm2) = (text::padded(m as nat, 2), text::padded(m2 as nat, 2));
    let (td, td2) = (text::padded(d as nat, 2), text::padded(d2 as nat, 2));
    let (th, th2) = (text::padded(h as nat, 2), text::padded(h2 as nat, 2));
    let (tn, tn2) = (text::padded(min as nat, 2), text::padded(min2 as nat, 2));
    if y < y2 {
        text::lemma_padded_width(y as nat);
        text::lemma_padded_width(y2 as nat);
        text::lemma_four_digits_order(y as nat, y2 as nat);
        lemma_year_first(ty, tm, td, th, tn, ty2, tm2, td2, th2, tn2);
    } else if m < m2 {
        text::lemma_padded_width(m as nat);
        text::lemma_padded_width(m2 as nat);
        text::lemma_two_digits_order(m as nat, m2 as nat);
        lemma_month_first(ty, tm, td, th, tn, tm2, td2, th2, tn2);
    } else if d < d2 {
        text::lemma_padded_width(d as nat);
        text::lemma_padded_width(d2 as nat);
        text::lemma_two_digits_order(d as nat, d2 as nat);
        lemma_day_first(ty, tm, td, th, tn, td2, th2, tn2);
    } else if h < h2 {
        text::lemma_padded_width(h as nat);
        text::lemma_padded_width(h2 as nat);
        text::lemma_two_digits_order(h as nat, h2 as nat);
        lemma_hour_first(ty, tm, td, th, tn, th2, tn2);
    } else {
        text::lemma_padded_width(min as nat);
        text::lemma_padded_width(min2 as nat);
        text::lemma_two_digits_order(min as nat, min2 as nat);
        lemma_minute_first(ty, tm, td, th, tn, tn2);
    }
}

/// The day, the hour and the minute of a moment are those of its minute.
proof fn lemma_minutes(a: int)
    requires
        0 <= a,
    ensures
        a / 86400 == (a / 60) / 1440,
        (a % 86400) / 3600 == (a / 60) % 1440 / 60,
        (a % 3600) / 60 == (a / 60) % 1440 % 60,
{
    let (p, r) = (a / 60, a % 60);
    let (day, u) = (p / 1440, p % 1440);
    let (hour, v) = (u / 60, u % 60);
    assert(a == 60 * p + r && p == 1440 * day + u && u == 60 * hour + v);
    let (of_day, of_hour) = (60 * u + r, 60 * v + r);
    vstd::arithmetic::div_mod::lemma_fundamental_div_mod_converse(a, 86400, day, of_day);
    vstd::arithmetic::div_mod::lemma_fundamental_div_mod_converse(of_day, 3600, hour, of_hour);
    vstd::arithmetic::div_mod::lemma_fundamental_div_mod_converse(
        a,
        3600,
        24 * day + hour,
        of_hour,
    );
    vstd::arithmetic::div_mod::lemma_fundamental_div_mod_converse(of_hour, 60, v, r);
}

/// A later minute is a later day, or a later hour of it, or a later minute
/// of that; and within one minute they are all the same.
proof fn lemma_later_minute(a: int, b: int)
    requires
        0 <= a <= b,
    ensures
        a / 60 == b / 60 ==> a / 86400 == b / 86400 && (a % 86400) / 3600 == (b % 86400) / 3600 && (
        a % 3600) / 60 == (b % 3600) / 60,
        a / 60 < b / 60 && a / 86400 == b / 86400 ==> (a % 86400) / 3600 < (b % 86400) / 3600 || ((
        a % 86400) / 3600 == (b % 86400) / 3600 && (a % 3600) / 60 < (b % 3600) / 60),
{
    lemma_minutes(a);
    lemma_minutes(b);
}

/// Until the year ten thousand a later moment is written later, and two
/// moments are written alike exactly within one minute.
pub proof fn a_later_moment_is_written_later(a: u64, b: u64, s: Seq<char>, t: Seq<char>)
    requires
        a <= b < 253402300800,
        is_moment(a, s),
        is_moment(b, t),
    ensures
        s == t || text::earlier(s, t),
        s == t <==> a / 60 == b / 60,
{
    let (h, min) = ((a % 86400) as int / 3600, (a % 3600) as int / 60);
    let (h2, min2) = ((b % 86400) as int / 3600, (b % 3600) as int / 60);
    let (y, m, d) = choose|y: int, m: int, d: int|
        {
            &&& #[trigger] is_date(y, m, d)
            &&& day_number(y, m, d) == a / 86400
            &&& s == moment_text(y, m, d, h, min)
        };
    let (y2, m2, d2) = choose|y: int, m: int, d: int|
        {
            &&& #[trigger] is_date(y, m, d)
            &&& day_number(y, m, d) == b / 86400
            &&& t == moment_text(y, m, d, h2, min2)
        };
    lemma_four_digit_year(y, m, d);
    lemma_four_digit_year(y2, m2, d2);
    lemma_later_minute(a as int, b as int);
    if a / 86400 == b / 86400 {
        a_day_is_one_date(y, m, d, y2, m2, d2);
    } else {
        lemma_later_day(y, m, d, y2, m2, d2);
    }
    if a / 60 != b / 60 {
        lemma_moment_order(y, m, d, h, min, y2, m2, d2, h2, min2);
        text::lemma_not_before_itself(s);
    }
}

// The lists.

/// A state of the history: the words it was recorded with, when it has
/// some, and whether it is a frame nothing was done to.
#[derive(Debug)]
pub struct Recorded {
    pub words: Option<String>,
    pub untouched: bool,
}

/// A frame's sidecar, as the panel lists it.
#[derive(Debug)]
pub struct Listed {
    pub can_undo: bool,
    pub can_redo: bool,
    /// The states, oldest first, and which is current.
    pub states: Vec<Recorded>,
    pub position: usize,
    pub snapshots: Vec<String>,
}

/// What the panel shows of a history.
#[derive(Debug)]
pub struct History {
    pub can_undo: bool,
    pub can_redo: bool,
    /// The rows, newest first.
    pub names: Vec<String>,
    pub current: i32,
    pub snapshots: Vec<String>,
}

/// A state's row: the words it was recorded with, or what it is.
pub open spec fn state_text(r: Recorded) -> Seq<char> {
    match r.words {
        Some(w) => w@,
        None => if r.untouched {
            "Original"@
        } else {
            "Earliest kept"@
        },
    }
}

/// The rows, newest first.
pub open spec fn row_texts(states: Seq<Recorded>) -> Seq<Seq<char>> {
    Seq::new(states.len(), |i: int| state_text(states[states.len() - 1 - i]))
}

/// The undo and redo buttons, the history's rows and the snapshots'
/// names follow the current file's sidecar. The rows are newest first,
/// each named for what it changed from the one before. With no file
/// open the lists are empty.
pub fn show_history(sidecar: Option<&Listed>, shown: &mut History)
    requires
        sidecar matches Some(s) ==> s.position < s.states@.len() <= i32::MAX,
    ensures
        match sidecar {
            Some(s) => {
                &&& final(shown).can_undo == s.can_undo
                &&& final(shown).can_redo == s.can_redo
                &&& text::texts(final(shown).names@) == row_texts(s.states@)
                &&& final(shown).current == s.states@.len() - 1 - s.position
                &&& text::texts(final(shown).snapshots@) == text::texts(s.snapshots@)
            },
            None => {
                &&& final(shown).can_undo == old(shown).can_undo
                &&& final(shown).can_redo == old(shown).can_redo
                &&& final(shown).names@.len() == 0
                &&& final(shown).current == -1
                &&& final(shown).snapshots@.len() == 0
            },
        },
{
    let s = match sidecar {
        Some(s) => s,
        None => {
            shown.names = Vec::new();
            shown.current = -1;
            shown.snapshots = Vec::new();
            return ;
        },
    };
    shown.can_undo = s.can_undo;
    shown.can_redo = s.can_redo;
    let n: usize = s.states.len();
    let mut names: Vec<String> = Vec::new();
    let mut i: usize = 0;
    while i < n
        invariant
            i <= n,
            n == s.states@.len(),
            names@.len() == i,
            forall|k: int| 0 <= k < i ==> (#[trigger] names@[k])@ == row_texts(s.states@)[k],
        decreases n - i,
    {
        let r = &s.states[n - 1 - i];
        let name = match &r.words {
            Some(w) => w.clone(),
            None => if r.untouched {
                "Original".to_owned()
            } else {
                "Earliest kept".to_owned()
            },
        };
        names.push(name);
        i = i + 1;
    }
    assert(text::texts(names@) =~= row_texts(s.states@));
    shown.names = names;
    shown.current = (n - 1 - s.position) as i32;
    let mut snapshots: Vec<String> = Vec::new();
    let mut j: usize = 0;
    while j < s.snapshots.len()
        invariant
            j <= s.snapshots@.len(),
            snapshots@.len() == j,
            forall|k: int| 0 <= k < j ==> (#[trigger] snapshots@[k])@ == s.snapshots@[k]@,
        decreases s.snapshots.len() - j,
    {
        snapshots.push(s.snapshots[j].clone());
        j = j + 1;
    }
    assert(text::texts(snapshots@) =~= text::texts(s.snapshots@));
    shown.snapshots = snapshots;
}

/// The state a row of the list is of.
pub open spec fn state_of_row(row: i32, states: nat) -> Option<usize> {
    if 0 <= row < states {
        Some((states - 1 - row) as usize)
    } else {
        None
    }
}

pub fn state_at_row(row: i32, states: usize) -> (r: Option<usize>)
    ensures
        r == state_of_row(row, states as nat),
{
    if row >= 0 && (row as u64) < states as u64 {
        Some(states - 1 - row as usize)
    } else {
        None
    }
}

/// The current state's row is the row that is marked current.
pub proof fn the_current_row_is_the_current_state(position: usize, states: nat)
    requires
        position < states <= i32::MAX,
    ensures
        state_of_row((states - 1 - position) as i32, states) == Some(position),
{
}

// A row under the pointer.

/// What a hover shows in place of the panel's, and what it keeps to put
/// back.
#[derive(Debug)]
pub struct Peek<E, V> {
    pub peek: Option<E>,
    pub status_kept: Option<String>,
    pub view_kept: Option<V>,
    /// Where the view is.
    pub view: V,
    pub status: String,
}

/// What a hover says: the row, and what of it shows only once restored.
pub open spec fn peek_text(what: Seq<char>, unseen: Seq<Seq<char>>) -> Seq<char> {
    if unseen.len() == 0 {
        what
    } else {
        what + ("; the "@ + text::joined(unseen, " and "@) + " shown once restored"@)
    }
}

/// A row's edit shown in place of the panel's; the first row keeps what
/// was there, and the next ones keep that.
pub open spec fn peeks<E, V>(
    before: Peek<E, V>,
    edit: E,
    what: Seq<char>,
    unseen: Seq<Seq<char>>,
    after: Peek<E, V>,
) -> bool {
    &&& after.peek == Some(edit)
    &&& after.status@ == peek_text(what, unseen)
    &&& after.view == before.view
    &&& match before.status_kept {
        Some(k) => after.status_kept == Some(k),
        None => after.status_kept is Some && after.status_kept->0@ == before.status@,
    }
    &&& after.view_kept == match before.view_kept {
        Some(v) => Some(v),
        None => Some(before.view),
    }
}

/// The panel's edit back, the words and the view as they were kept.
pub open spec fn unpeeks<E, V>(before: Peek<E, V>, after: Peek<E, V>) -> bool {
    if before.peek is None {
        after == before
    } else {
        &&& after.peek is None
        &&& after.status_kept is None
        &&& after.view_kept is None
        &&& after.status == match before.status_kept {
            Some(k) => k,
            None => before.status,
        }
        &&& after.view == match before.view_kept {
            Some(v) => v,
            None => before.view,
        }
    }
}

/// Show `edit` in the viewport in place of the panel's while a row is
/// under the pointer, saying so on the status line (`unseen` is what of
/// it the viewport cannot preview), or put the panel's back for none.
pub fn peek<E, V: Copy>(st: &mut Peek<E, V>, edit: Option<E>, what: &str, unseen: &Vec<String>)
    ensures
        match edit {
            Some(e) => peeks(*old(st), e, what@, text::texts(unseen@), *final(st)),
            None => unpeeks(*old(st), *final(st)),
        },
{
    match edit {
        Some(e) => {
            let mut s = what.to_owned();
            if unseen.len() > 0 {
                let list = text::join(unseen, " and ");
                let mut note = "; the ".to_owned();
                note.append(list.as_str());
                note.append(" shown once restored");
                s.append(note.as_str());
            }
            if st.status_kept.is_none() {
                st.status_kept = Some(st.status.clone());
            }
            if st.view_kept.is_none() {
                st.view_kept = Some(st.view);
            }
            st.status = s;
            st.peek = Some(e);
        },
        None => {
            if st.peek.is_some() {
                st.peek = None;
                if let Some(status) = st.status_kept.take() {
                    st.status = status;
                }
                if let Some(view) = st.view_kept.take() {
                    st.view = view;
                }
            }
        },
    }
}

/// A hover that goes on: the pointer on another row, or the view moved
/// under it.
pub open spec fn goes_on<E, V>(before: Peek<E, V>, after: Peek<E, V>) -> bool {
    ||| exists|edit: E, what: Seq<char>, unseen: Seq<Seq<char>>|
        #[trigger] peeks(before, edit, what, unseen, after)
    ||| after == (Peek { view: after.view, ..before })
}

/// A hover from `first`, over the first row and on over any number more.
pub open spec fn hovers<E, V>(first: Peek<E, V>, over: Seq<Peek<E, V>>) -> bool {
    &&& over.len() > 0
    &&& exists|edit: E, what: Seq<char>, unseen: Seq<Seq<char>>|
        #[trigger] peeks(first, edit, what, unseen, over[0])
    &&& forall|i: int| 0 < i < over.len() ==> goes_on(over[i - 1], #[trigger] over[i])
}

proof fn lemma_hover_keeps<E, V>(first: Peek<E, V>, over: Seq<Peek<E, V>>, i: int)
    requires
        first.status_kept is None,
        first.view_kept is None,
        hovers(first, over),
        0 <= i < over.len(),
    ensures
        over[i].peek is Some,
        over[i].status_kept matches Some(k) && k@ == first.status@,
        over[i].view_kept == Some(first.view),
    decreases i,
{
    if i > 0 {
        lemma_hover_keeps(first, over, i - 1);
        assert(goes_on(over[i - 1], over[i]));
    }
}

/// A hover and its end leave the words and the view as they were, however
/// many rows the pointer went over and wherever the view was moved.
pub proof fn a_hover_leaves_no_trace<E, V>(
    first: Peek<E, V>,
    over: Seq<Peek<E, V>>,
    last: Peek<E, V>,
)
    requires
        first.status_kept is None,
        first.view_kept is None,
        hovers(first, over),
        unpeeks(over.last(), last),
    ensures
        last.peek is None,
        last.status@ == first.status@,
        last.view == first.view,
        last.status_kept is None,
        last.view_kept is None,
{
    lemma_hover_keeps(first, over, over.len() - 1);
}

// Making a state current.

/// What an undo, a redo, a row's click or a restore does first.
#[derive(Debug, Clone, Copy, PartialEq, Eq, Structural)]
pub enum Before {
    /// No file is open.
    Nothing,
    /// In culling the panel is not the frame's: the sidecar moves on
    /// its own.
    Move,
    /// Whatever the panel holds is a state first.
    RecordThenMove,
}

pub fn step_back_or_on(current: Option<usize>, culling: bool) -> (b: Before)
    ensures
        b == if current is None {
            Before::Nothing
        } else if culling {
            Before::Move
        } else {
            Before::RecordThenMove
        },
{
    if current.is_none() {
        Before::Nothing
    } else if culling {
        Before::Move
    } else {
        Before::RecordThenMove
    }
}

/// What it does once the sidecar has moved, or not.
#[derive(Debug, Clone, Copy, PartialEq, Eq, Structural)]
pub enum After {
    Nothing,
    /// The mode ends on the state moved to, and that develops.
    LeaveCulling,
    /// The sidecar's current edit takes the panel.
    TakeCurrent,
}

pub fn stepped(culling: bool, moved: bool) -> (a: After)
    ensures
        a == if !moved {
            After::Nothing
        } else if culling {
            After::LeaveCulling
        } else {
            After::TakeCurrent
        },
{
    if !moved {
        After::Nothing
    } else if culling {
        After::LeaveCulling
    } else {
        After::TakeCurrent
    }
}

/// How a row's click gets to its state.
#[derive(Debug, Clone, Copy, PartialEq, Eq, Structural)]
pub enum Click {
    GoTo,
    /// The state follows the panel's as a step of its own.
    Record,
}

/// How a click on a row makes its state current, and which state that is;
/// nothing for a row with none. In culling the sidecar goes to it on its
/// own. Out of it whatever the panel holds is a state first: if that was
/// news to the history (`dirty`), what was undone is gone, and an undone
/// row's state follows the panel's as a step. The words kept from before a
/// hover are let go, so that nothing puts them back over what comes of it.
pub fn history_clicked(
    kept: &mut Option<String>,
    row: i32,
    states: usize,
    culling: bool,
    dirty: bool,
    position: usize,
) -> (c: Option<(usize, Click)>)
    ensures
        match state_of_row(row, states as nat) {
            None => c is None && *final(kept) == *old(kept),
            Some(index) => {
                &&& *final(kept) is None
                &&& c == Some(
                    (
                        index,
                        if !culling && dirty && index > position {
                            Click::Record
                        } else {
                            Click::GoTo
                        },
                    ),
                )
            },
        },
{
    match state_at_row(row, states) {
        None => None,
        Some(index) => {
            *kept = None;
            if !culling && dirty && index > position {
                Some((index, Click::Record))
            } else {
                Some((index, Click::GoTo))
            }
        },
    }
}

/// What taking the sidecar's current edit comes to.
#[derive(Debug, Clone, Copy, PartialEq, Eq, Structural)]
pub enum Taken {
    /// No file is open.
    Nothing,
    /// Culling ends on it.
    LeaveCulling,
    /// It is on the panel, and develops as it is.
    Redraw,
    /// It is on the panel, and the engine's part of it develops.
    Develop(Develop),
}

/// The target, when an edit has such an adjustment.
pub open spec fn target_kept(target: Option<usize>, adjustments: nat) -> Option<usize> {
    match target {
        Some(i) => if i < adjustments {
            Some(i)
        } else {
            None
        },
        None => None,
    }
}

/// The panel with the sidecar's current edit on it.
pub open spec fn current_taken<N: Copy, L, G>(
    old_st: Editing<N, L, G>,
    old_w: Window<N, L, G>,
    current: Edit<N, L, G>,
    st: Editing<N, L, G>,
    w: Window<N, L, G>,
) -> bool {
    let target = target_kept(old_st.target, current.adjustments@.len());
    &&& st == (Editing { edit: current, target, ..old_st })
    &&& edit::shows_edit(current, target, old_w, w)
}

/// Show the current file's sidecar's current edit (`sidecar`) in place of
/// whatever the panel holds, and develop if the engine's part changed:
/// what an undo, a redo or a preset does once the sidecar says what is
/// current. The target goes when the edit has no such adjustment. A
/// preset or a sync's own words, left for an earlier develop to carry, go
/// with that develop: it is superseded and will not land.
pub fn take_current<N: Copy, L: Copy, G: Copy>(
    current: Option<usize>,
    culling: bool,
    same_develop: bool,
    sidecar: Edit<N, L, G>,
    st: &mut Editing<N, L, G>,
    w: &mut Window<N, L, G>,
    work: &mut Work,
    turn: u8,
) -> (t: Taken)
    requires
        edit::countable(sidecar, 0),
        old(work).generation < u64::MAX,
    ensures
        current is None ==> t == Taken::Nothing,
        current is Some && culling ==> t == Taken::LeaveCulling,
        current is None || culling ==> {
            &&& *final(st) == *old(st)
            &&& *final(w) == *old(w)
            &&& *final(work) == *old(work)
        },
        current is Some && !culling ==> {
            &&& current_taken(*old(st), *old(w), sidecar, *final(st), *final(w))
            &&& if same_develop {
                t == Taken::Redraw && *final(work) == *old(work)
            } else {
                &&& t == Taken::Develop(
                    Develop { generation: (old(work).generation + 1) as u64, turn },
                )
                &&& final(work).generation == old(work).generation + 1
                &&& final(work).busy
                &&& final(work).status@ == "developing..."@
                &&& final(work).status_after_develop is None
            }
        },
{
    if current.is_none() {
        return Taken::Nothing;
    }
    if culling {
        return Taken::LeaveCulling;
    }
    st.edit = sidecar;
    if let Some(i) = st.target {
        if i >= st.edit.adjustments.len() {
            st.target = None;
        }
    }
    edit::show_edit(&st.edit, w, st.target);
    if same_develop {
        return Taken::Redraw;
    }
    work.generation = work.generation + 1;
    work.status_after_develop = None;
    work.status = "developing...".to_owned();
    work.busy = true;
    Taken::Develop(Develop { generation: work.generation, turn })
}

/// Once the sidecar's current edit is on the panel, what the panel says
/// is that edit: an undo leaves nothing of what it undid to be read back.
/// (Of an edit as reading the panel leaves one.)
pub proof fn an_undo_leaves_nothing_behind<N: Copy, L, G>(
    old_st: Editing<N, L, G>,
    old_w: Window<N, L, G>,
    current: Edit<N, L, G>,
    st: Editing<N, L, G>,
    w: Window<N, L, G>,
    read: Edit<N, L, G>,
)
    requires
        edit::countable(current, 0),
        edit::reads_so(current),
        current_taken(old_st, old_w, current, st, w),
        edit::edit_read(st.edit, w, st.target, read),
    ensures
        edit::same_edit(read, current),
{
    edit::what_is_shown_reads_back(current, st.target, old_w, w, read);
}

// The words of the rows and the snapshots.

pub open spec fn hovered_text(i: usize, current: bool, name: Seq<char>) -> Seq<char> {
    if current {
        "the current state: "@ + name
    } else {
        "step "@ + text::decimal(i as nat) + ": "@ + name + "; click to make it current"@
    }
}

/// What a hover over a row of the history says.
pub fn history_hovered(i: usize, position: usize, name: &str) -> (s: String)
    ensures
        s@ == hovered_text(i, i == position, name@),
{
    if i == position {
        let mut s = "the current state: ".to_owned();
        s.append(name);
        s
    } else {
        let mut s = "step ".to_owned();
        text::put_decimal(&mut s, i as u64);
        s.append(": ");
        s.append(name);
        s.append("; click to make it current");
        s
    }
}

/// What a hover over a snapshot says; `taken` is when, as [`date_of`]
/// has it.
pub fn snapshot_hovered(name: &str, taken: &str) -> (s: String)
    ensures
        s@ == name@ + ", taken "@ + taken@ + "; click to restore, double-click to rename"@,
{
    let mut s = name.to_owned();
    s.append(", taken ");
    s.append(taken);
    s.append("; click to restore, double-click to rename");
    s
}

/// The name a snapshot is taken under, with `taken` already there.
pub fn snapshot_name(taken: usize) -> (s: String)
    requires
        taken < usize::MAX,
    ensures
        s@ == "Snapshot "@ + text::decimal((taken + 1) as nat),
{
    let mut s = "Snapshot ".to_owned();
    text::put_decimal(&mut s, (taken + 1) as u64);
    s
}

/// What is said of a snapshot.
#[derive(Debug, Clone, Copy, PartialEq, Eq, Structural)]
pub enum Said {
    Taken,
    Restored,
    /// Restoring it changed nothing.
    Current,
    Removed,
}

pub open spec fn snapshot_text(name: Seq<char>, said: Said) -> Seq<char> {
    match said {
        Said::Taken => name + " taken; type a name for it"@,
        Said::Restored => name + " restored"@,
        Said::Current => name + " is the current state"@,
        Said::Removed => name + " removed"@,
    }
}

pub fn snapshot_said(name: &str, said: Said) -> (s: String)
    ensures
        s@ == snapshot_text(name@, said),
{
    let mut s = name.to_owned();
    match said {
        Said::Taken => {
            s.append(" taken; type a name for it");
        },
        Said::Restored => {
            s.append(" restored");
        },
        Said::Current => {
            s.append(" is the current state");
        },
        Said::Removed => {
            s.append(" removed");
        },
    }
    s
}

/// What restoring a snapshot comes to.
#[derive(Debug, Clone, Copy, PartialEq, Eq, Structural)]
pub struct Restored {
    pub after: After,
    /// What is said of it; nothing leaves the words as they are.
    pub said: Option<Said>,
}

/// A snapshot restored, once the sidecar has gone to it (`moved`) or was
/// there already; none for a row that is not there. In culling a snapshot
/// that is the current state is passed over in silence. The words kept
/// from before a hover are let go, whichever of these it is.
pub fn snapshot_restored(
    kept: &mut Option<String>,
    snapshots: usize,
    i: i32,
    culling: bool,
    moved: bool,
) -> (r: Option<Restored>)
    ensures
        *final(kept) == if r is Some {
            None
        } else {
            *old(kept)
        },
        r == if !(0 <= i < snapshots) {
            None
        } else if moved {
            Some(
                Restored {
                    after: if culling {
                        After::LeaveCulling
                    } else {
                        After::TakeCurrent
                    },
                    said: Some(Said::Restored),
                },
            )
        } else {
            Some(
                Restored {
                    after: After::Nothing,
                    said: if culling {
                        None
                    } else {
                        Some(Said::Current)
                    },
                },
            )
        },
{
    if i < 0 || i as u64 >= snapshots as u64 {
        return None;
    }
    *kept = None;
    let after = stepped(culling, moved);
    let said = if moved {
        Some(Said::Restored)
    } else if culling {
        None
    } else {
        Some(Said::Current)
    };
    Some(Restored { after, said })
}

/// A snapshot removed: its name, or nothing for a row that is not there.
/// What a hover showed in place of the panel's goes with it.
pub fn snapshot_deleted<E, V: Copy>(st: &mut Peek<E, V>, names: &mut Vec<String>, i: i32) -> (gone:
    Option<String>)
    ensures
        gone is Some == (0 <= i < old(names)@.len()),
        match gone {
            Some(name) => {
                &&& name == old(names)@[i as int]
                &&& final(names)@ == old(names)@.remove(i as int)
                &&& final(st).status@ == name@ + " removed"@
                &&& exists|bare: Peek<E, V>|
                    {
                        &&& #[trigger] unpeeks(*old(st), bare)
                        &&& *final(st) == (Peek { status: final(st).status, ..bare })
                    }
            },
            None => *final(names) == *old(names) && *final(st) == *old(st),
        },
{
    if i < 0 || i as u64 >= names.len() as u64 {
        return None;
    }
    let name = names.remove(i as usize);
    let none: Vec<String> = Vec::new();
    peek(st, None, "", &none);
    assert(unpeeks(*old(st), *st));
    st.status = snapshot_said(name.as_str(), Said::Removed);
    Some(name)
}

/// What a click on a row said stays when the pointer leaves it: with the
/// words from before the hover let go, its end puts none back.
pub proof fn what_a_click_said_stays<E, V>(said: Peek<E, V>, after: Peek<E, V>)
    requires
        said.status_kept is None,
        unpeeks(said, after),
    ensures
        after.status == said.status,
{
}

/// A snapshot renamed: a name of nothing but space is none, and a row
/// that is not there is left.
pub fn snapshot_renamed(names: &mut Vec<String>, i: i32, name: &str) -> (renamed: bool)
    ensures
        renamed == (text::trimmed(name@).len() > 0 && 0 <= i < old(names)@.len()),
        renamed ==> {
            &&& final(names)@.len() == old(names)@.len()
            &&& text::texts(final(names)@) == text::texts(old(names)@).update(
                i as int,
                text::trimmed(name@),
            )
        },
        !renamed ==> *final(names) == *old(names),
{
    let typed = text::trim_text(name);
    if typed.as_str().is_empty() {
        return false;
    }
    if i < 0 || i as u64 >= names.len() as u64 {
        return false;
    }
    names.set(i as usize, typed);
    assert(text::texts(names@) =~= text::texts(old(names)@).update(
        i as int,
        text::trimmed(name@),
    ));
    true
}

// What holds of the calendar and the list.

/// The day after a date is the next one's: the next of its month, the
/// first of the next month after a month's last, and the first of the year
/// after the last of December. The first day of all is the first of 1970.
pub proof fn a_day_follows_a_day(y: int, m: int, d: int)
    requires
        is_date(y, m, d),
        y >= 1,
    ensures
        day_number(1970, 1, 1) == 0,
        is_date(y, m, d + 1) ==> day_number(y, m, d + 1) == day_number(y, m, d) + 1,
        !is_date(y, m, d + 1) && m < 12 ==> is_date(y, m + 1, 1) && day_number(y, m + 1, 1)
            == day_number(y, m, d) + 1,
        !is_date(y, m, d + 1) && m == 12 ==> is_date(y + 1, 1, 1) && day_number(y + 1, 1, 1)
            == day_number(y, m, d) + 1,
        m == 2 ==> (is_date(y, 2, 29) <==> (y % 4 == 0 && y % 100 != 0) || y % 400 == 0),
{
    lemma_months(y);
    lemma_year_length(y);
    reveal_with_fuel(days_before_month, 2);
}

/// The list is newest first: a row is named by the words of the state it
/// is of, or for having none by whether anything came before it.
pub proof fn a_row_is_named_by_its_state(states: Seq<Recorded>, row: i32)
    requires
        0 <= row < states.len() <= i32::MAX,
    ensures
        row_texts(states).len() == states.len(),
        state_of_row(row, states.len()) matches Some(k) && k == states.len() - 1 - row && {
            let s = states[k as int];
            &&& s.words matches Some(w) ==> row_texts(states)[row as int] == w@
            &&& s.words is None && s.untouched ==> row_texts(states)[row as int] == "Original"@
            &&& s.words is None && !s.untouched ==> row_texts(states)[row as int]
                == "Earliest kept"@
        },
{
}

/// A row off the list is of no state.
pub proof fn a_row_off_the_list_is_no_state(row: i32, states: nat)
    ensures
        row < 0 || row >= states ==> state_of_row(row, states) is None,
{
}

/// A hover shows the row's edit, says what it is, and keeps what was said
/// and where the view was before the first of them.
pub proof fn a_hover_shows_its_row<E, V>(
    before: Peek<E, V>,
    edit: E,
    what: Seq<char>,
    unseen: Seq<Seq<char>>,
    after: Peek<E, V>,
)
    requires
        peeks(before, edit, what, unseen, after),
    ensures
        after.peek == Some(edit),
        unseen.len() == 0 ==> after.status@ == what,
        unseen.len() > 0 ==> after.status@.take(what.len() as int) == what && after.status@.len()
            > what.len(),
        before.status_kept is None ==> (after.status_kept matches Some(k) && k@
            == before.status@),
        before.status_kept is Some ==> after.status_kept == before.status_kept,
        before.view_kept is None ==> after.view_kept == Some(before.view),
        before.view_kept is Some ==> after.view_kept == before.view_kept,
        after.view == before.view,
{
    reveal_strlit("; the ");
    if unseen.len() > 0 {
        assert(after.status@.take(what.len() as int) =~= what);
    }
}

/// The state moved to is the edit in hand and on the panel, its target the
/// one there was where it has such an adjustment.
pub proof fn the_state_moved_to_is_on_the_panel<N: Copy, L, G>(
    old_st: Editing<N, L, G>,
    old_w: Window<N, L, G>,
    current: Edit<N, L, G>,
    st: Editing<N, L, G>,
    w: Window<N, L, G>,
)
    requires
        edit::countable(current, 0),
        current_taken(old_st, old_w, current, st, w),
    ensures
        st.edit == current,
        w.picture == current.picture,
        w.look.tone == current.look.tone,
        old_st.target is None ==> st.target is None && w.look == current.look,
        old_st.target matches Some(i) ==> (i < current.adjustments@.len() ==> st.target == Some(i)
            && w.look.sliders == current.adjustments@[i as int].look.sliders),
        old_st.target matches Some(i) ==> (i >= current.adjustments@.len() ==> st.target is None
            && w.look == current.look),
{
    edit::showing_puts_the_edit_on_the_panel(current, st.target, old_w, w);
}

/// A step under the pointer is told by its place and its name, and how it
/// is made current; the current one is told as that.
pub proof fn a_step_is_told_by_its_place(i: usize, name: Seq<char>)
    ensures
        hovered_text(i, true, name) == "the current state: "@ + name,
        hovered_text(i, false, name) == "step "@ + text::decimal(i as nat) + ": "@ + name
            + "; click to make it current"@,
{
}

/// What was done with a snapshot is said after its name.
pub proof fn a_snapshot_is_said_by_its_name(name: Seq<char>)
    ensures
        snapshot_text(name, Said::Taken) == name + " taken; type a name for it"@,
        snapshot_text(name, Said::Restored) == name + " restored"@,
        snapshot_text(name, Said::Current) == name + " is the current state"@,
        snapshot_text(name, Said::Removed) == name + " removed"@,
{
}

} // verus!
