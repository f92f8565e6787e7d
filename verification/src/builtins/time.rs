//! Dates and times in UTC.

use vstd::prelude::*;

use crate::text::{chars, dec, dec_u64, digit, is_digit, rep, repeat};

verus! {

/// Whether a year is a leap year.
pub open spec fn is_leap(y: int) -> bool {
    y % 4 == 0 && (y % 100 != 0 || y % 400 == 0)
}

/// The days of the year before a month.
pub open spec fn days_before_month(y: int, m: int) -> int {
    let leap: int = if is_leap(y) { 1 } else { 0 };
    if m <= 1 {
        0
    } else if m == 2 {
        31
    } else if m == 3 {
        59 + leap
    } else if m == 4 {
        90 + leap
    } else if m == 5 {
        120 + leap
    } else if m == 6 {
        151 + leap
    } else if m == 7 {
        181 + leap
    } else if m == 8 {
        212 + leap
    } else if m == 9 {
        243 + leap
    } else if m == 10 {
        273 + leap
    } else if m == 11 {
        304 + leap
    } else {
        334 + leap
    }
}

/// How many days a month has.
pub open spec fn month_len(y: int, m: int) -> int {
    if m == 2 {
        if is_leap(y) {
            29
        } else {
            28
        }
    } else if m == 4 || m == 6 || m == 9 || m == 11 {
        30
    } else {
        31
    }
}

/// The days from the first day of the year one to the first day of a year.
pub open spec fn days_before_year(y: int) -> int {
    365 * (y - 1) + (y - 1) / 4 - (y - 1) / 100 + (y - 1) / 400
}

/// The day of a date, counted from the first of January 1970 as day zero, in the
/// Gregorian calendar.
pub open spec fn day_number(y: int, m: int, d: int) -> int {
    days_before_year(y) + days_before_month(y, m) + d - 1 - 719162
}

/// Whether a date is one of the calendar.
pub open spec fn is_date(y: int, m: int, d: int) -> bool {
    1 <= m <= 12 && 1 <= d <= month_len(y, m)
}

/// The days from March on, with the months counted from March.
proof fn lemma_from_march(mp: int)
    requires
        0 <= mp <= 11,
    ensures
        (153 * mp + 2) / 5 == (if mp == 0 {
            0int
        } else if mp == 1 {
            31
        } else if mp == 2 {
            61
        } else if mp == 3 {
            92
        } else if mp == 4 {
            122
        } else if mp == 5 {
            153
        } else if mp == 6 {
            184
        } else if mp == 7 {
            214
        } else if mp == 8 {
            245
        } else if mp == 9 {
            275
        } else if mp == 10 {
            306
        } else {
            337
        }),
{
}

/// The days of the year before a month that a count from March gives.
proof fn lemma_march(y: int, m: int)
    requires
        1 <= m <= 12,
    ensures
        ({
            let mp = (m + 9) % 12;
            let ym = if m <= 2 { y - 1 } else { y };
            days_before_year(y) + days_before_month(y, m) == 365 * ym + ym / 4 - ym / 100 + ym / 400
                + (153 * mp + 2) / 5 - 306
        }),
{
    lemma_from_march((m + 9) % 12);
    let z = y - 1;
    assert(y / 4 == z / 4 + (if y % 4 == 0 { 1int } else { 0 }));
    assert(y / 100 == z / 100 + (if y % 100 == 0 { 1int } else { 0 }));
    assert(y / 400 == z / 400 + (if y % 400 == 0 { 1int } else { 0 }));
}

/// The day of a date, where it can be counted.
pub fn days_from_civil(y: i64, m: u32, d: u32) -> (r: i64)
    requires
        1 <= m <= 12,
        i64::MIN <= day_number(y as int, m as int, d as int) <= i64::MAX,
    ensures
        r == day_number(y as int, m as int, d as int),
{
    let ym: i128 = if m <= 2 { y as i128 - 1 } else { y as i128 };
    let era: i128 = if ym >= 0 { ym / 400 } else { -((399 - ym) / 400) };
    let yoe: i128 = ym - era * 400;
    let mp: i128 = (m as i128 + 9) % 12;
    let doy: i128 = (153 * mp + 2) / 5 + d as i128 - 1;
    let doe: i128 = yoe * 365 + yoe / 4 - yoe / 100 + doy;
    proof {
        lemma_march(y as int, m as int);
        assert(era == ym as int / 400) by {
            if ym < 0 {
                assert(ym as int / 400 == -((399 - ym) / 400));
            }
        }
        assert(ym as int / 4 == 100 * era + yoe as int / 4);
        assert(ym as int / 100 == 4 * era + yoe as int / 100);
    }
    (era * 146097 + doe - 719468) as i64
}

/// The year of an era that a day falls in.
proof fn lemma_year_of_era(doe: int, yoe: int)
    requires
        0 <= doe < 146097,
        yoe == (doe - doe / 1460 + doe / 36524 - doe / 146096) / 365,
    ensures
        0 <= yoe <= 399,
        0 <= doe - (365 * yoe + yoe / 4 - yoe / 100) <= 365,
        (yoe + 1) % 4 != 0 || ((yoe + 1) % 100 == 0 && yoe != 399) ==> doe - (365 * yoe + yoe / 4 - yoe / 100) <= 364,
{
}

/// The date of a day.
pub open spec fn civil(z: int) -> (int, int, int) {
    choose|t: (int, int, int)| is_date(t.0, t.1, t.2) && day_number(t.0, t.1, t.2) == z
}

/// A later date has a later day.
proof fn lemma_later(y1: int, m1: int, d1: int, y2: int, m2: int, d2: int)
    requires
        is_date(y1, m1, d1),
        is_date(y2, m2, d2),
        y1 < y2 || (y1 == y2 && m1 < m2) || (y1 == y2 && m1 == m2 && d1 < d2),
    ensures
        day_number(y1, m1, d1) < day_number(y2, m2, d2),
{
    assert(days_before_month(y1, m1) + d1 <= 365 + (if is_leap(y1) { 1int } else { 0 }));
    if y1 < y2 {
        let z = y1 - 1;
        assert(y1 / 4 == z / 4 + (if y1 % 4 == 0 { 1int } else { 0 }));
        assert(y1 / 100 == z / 100 + (if y1 % 100 == 0 { 1int } else { 0 }));
        assert(y1 / 400 == z / 400 + (if y1 % 400 == 0 { 1int } else { 0 }));
        assert(days_before_year(y1 + 1) == days_before_year(y1) + 365 + (if is_leap(y1) { 1int } else { 0 }));
        lemma_years(y1 + 1, y2);
    }
}

/// A later year starts no earlier.
proof fn lemma_years(a: int, b: int)
    requires
        a <= b,
    ensures
        days_before_year(a) <= days_before_year(b),
    decreases b - a,
{
    if a < b {
        lemma_years(a, b - 1);
        let z = b - 2;
        assert((b - 1) / 4 >= z / 4);
        assert((b - 1) / 100 <= z / 100 + 1);
        assert((b - 1) / 400 >= z / 400);
    }
}

/// The date of a day is the only date with that day.
proof fn lemma_civil_is(y: int, m: int, d: int)
    requires
        is_date(y, m, d),
    ensures
        civil(day_number(y, m, d)) == (y, m, d),
{
    let z = day_number(y, m, d);
    let t = (y, m, d);
    assert(is_date(t.0, t.1, t.2) && day_number(t.0, t.1, t.2) == z);
    let u = civil(z);
    if u.0 < y || (u.0 == y && u.1 < m) || (u.0 == y && u.1 == m && u.2 < d) {
        lemma_later(u.0, u.1, u.2, y, m, d);
    } else if u != t {
        lemma_later(y, m, d, u.0, u.1, u.2);
    }
}

/// The month, counted from March, and the day of a day of the year that starts in March.
proof fn lemma_month_of(doy: int, mp: int, d: int)
    requires
        0 <= doy <= 365,
        mp == (5 * doy + 2) / 153,
        d == doy - (153 * mp + 2) / 5 + 1,
    ensures
        0 <= mp <= 11,
        1 <= d <= 31,
        mp == 1 || mp == 3 || mp == 6 || mp == 8 ==> d <= 30,
        mp == 11 ==> d == doy - 336,
{
    assert(0 <= mp <= 11);
    lemma_from_march(mp);
}

/// What whole eras add to a count of fours.
proof fn lemma_eras_4(y: int, era: int)
    ensures
        (y + era * 400) / 4 == 100 * era + y / 4,
        (y + era * 400) % 4 == y % 4,
{
}

/// What whole eras add to a count of hundreds.
proof fn lemma_eras_100(y: int, era: int)
    ensures
        (y + era * 400) / 100 == 4 * era + y / 100,
        (y + era * 400) % 100 == y % 100,
{
}

/// What whole eras add to a count of four hundreds.
proof fn lemma_eras_400(y: int, era: int)
    ensures
        (y + era * 400) / 400 == era + y / 400,
        (y + era * 400) % 400 == y % 400,
{
}

/// What whole eras add to a year's counts.
proof fn lemma_eras(yoe: int, era: int)
    requires
        0 <= yoe < 400,
    ensures
        (yoe + era * 400) / 4 == 100 * era + yoe / 4,
        (yoe + era * 400) / 100 == 4 * era + yoe / 100,
        (yoe + era * 400) / 400 == era,
        is_leap(yoe + era * 400 + 1) == is_leap(yoe + 1),
{
    lemma_eras_4(yoe, era);
    lemma_eras_100(yoe, era);
    lemma_eras_400(yoe, era);
    lemma_eras_4(yoe + 1, era);
    lemma_eras_100(yoe + 1, era);
    lemma_eras_400(yoe + 1, era);
}

/// The steps from a day to its date.
proof fn lemma_steps(z: int, era: int, yoe: int, doy: int, mp: int, d: int)
    requires
        0 <= yoe <= 399,
        0 <= doy <= 365,
        !is_leap(yoe + 1) ==> doy <= 364,
        z + 719468 == era * 146097 + 365 * yoe + yoe / 4 - yoe / 100 + doy,
        mp == (5 * doy + 2) / 153,
        d == doy - (153 * mp + 2) / 5 + 1,
    ensures
        ({
            let m = if mp < 10 { mp + 3 } else { mp - 9 };
            let y = yoe + era * 400;
            let year = if m <= 2 { y + 1 } else { y };
            0 <= mp <= 11 && is_date(year, m, d) && day_number(year, m, d) == z
        }),
{
    let m = if mp < 10 { mp + 3 } else { mp - 9 };
    let y = yoe + era * 400;
    let year = if m <= 2 { y + 1 } else { y };
    lemma_month_of(doy, mp, d);
    lemma_eras(yoe, era);
    lemma_march(year, m);
    assert((m + 9) % 12 == mp);
}

/// The date of a day.
pub fn civil_from_days(z: i64) -> (r: (i64, u32, u32))
    requires
        i64::MIN + 1000000 <= z <= i64::MAX - 1000000,
    ensures
        (r.0 as int, r.1 as int, r.2 as int) == civil(z as int),
        is_date(r.0 as int, r.1 as int, r.2 as int),
        day_number(r.0 as int, r.1 as int, r.2 as int) == z,
{
    let w: i64 = z + 719468;
    let era: i64 = if w >= 0 { w / 146097 } else { -((146096 - w) / 146097) };
    let doe: i64 = w - era * 146097;
    let yoe: i64 = (doe - doe / 1460 + doe / 36524 - doe / 146096) / 365;
    proof {
        lemma_year_of_era(doe as int, yoe as int);
    }
    let y: i64 = yoe + era * 400;
    let doy: i64 = doe - (365 * yoe + yoe / 4 - yoe / 100);
    let mp: i64 = (5 * doy + 2) / 153;
    let ghost day = doy - (153 * mp as int + 2) / 5 + 1;
    proof {
        assert(!is_leap(yoe + 1) ==> doy <= 364);
        lemma_steps(z as int, era as int, yoe as int, doy as int, mp as int, day);
    }
    let d: i64 = doy - (153 * mp + 2) / 5 + 1;
    let m: i64 = if mp < 10 { mp + 3 } else { mp - 9 };
    let year: i64 = if m <= 2 { y + 1 } else { y };
    proof {
        lemma_civil_is(year as int, m as int, d as int);
    }
    (year, m as u32, d as u32)
}

/// A date that is one of the calendar is the date of its day.
pub proof fn law_date_of_day(y: int, m: int, d: int)
    requires
        is_date(y, m, d),
    ensures
        civil(day_number(y, m, d)) == (y, m, d),
{
    lemma_civil_is(y, m, d);
}

/// A number filled up with zeros to a width, the minus sign counted in.
#[verifier::opaque]
pub open spec fn padded(n: int, width: int) -> Seq<char> {
    if n < 0 {
        let d = dec((-n) as nat);
        seq!['-'] + rep('0', if d.len() + 1 < width { (width - 1 - d.len()) as nat } else { 0 }) + d
    } else {
        let d = dec(n as nat);
        rep('0', if d.len() < width { (width - d.len()) as nat } else { 0 }) + d
    }
}

/// A number below ten thousand has at most four digits.
proof fn lemma_dec_len(n: nat)
    ensures
        1 <= dec(n).len(),
        n < 10 ==> dec(n).len() == 1,
        10 <= n < 100 ==> dec(n).len() == 2,
        100 <= n < 1000 ==> dec(n).len() == 3,
        1000 <= n < 10000 ==> dec(n).len() == 4,
        n <= u64::MAX ==> dec(n).len() <= 20,
{
    reveal_with_fuel(dec, 21);
}

/// A number filled up with zeros to a width, the minus sign counted in.
fn pad(n: i64, width: usize) -> (r: String)
    ensures
        r@ == padded(n as int, width as int),
{
    reveal(padded);
    let neg = n < 0;
    let m: u64 = if neg { (-(n as i128)) as u64 } else { n as u64 };
    let d = dec_u64(m);
    proof {
        lemma_dec_len(m as nat);
    }
    let len: usize = chars(d.as_str()).len();
    let used: usize = if neg { len + 1 } else { len };
    let zeros = repeat('0', if used < width { width - used } else { 0 });
    let mut s = String::new();
    if neg {
        s.push('-');
        s.append(zeros.as_str());
        s.append(d.as_str());
        assert(s@ =~= padded(n as int, width as int));
    } else {
        s.append(zeros.as_str());
        s.append(d.as_str());
        assert(s@ =~= padded(n as int, width as int));
    }
    s
}

/// A point in time by its calendar fields.
pub struct Moment {
    pub year: i64,
    pub month: u32,
    pub day: u32,
    pub hour: i64,
    pub minute: i64,
    pub second: i64,
}

/// The calendar fields of a time in seconds since the first of January 1970.
pub open spec fn is_moment(m: Moment, secs: int) -> bool {
    &&& is_date(m.year as int, m.month as int, m.day as int)
    &&& 0 <= m.hour <= 23
    &&& 0 <= m.minute <= 59
    &&& 0 <= m.second <= 59
    &&& day_number(m.year as int, m.month as int, m.day as int) * 86400 + m.hour * 3600 + m.minute * 60
        + m.second == secs
}

/// The text of a format from a position on: `YYYY`, `MM`, `DD`, `HH`, `mm` and `SS` stand
/// for the fields, and every other character for itself.
pub open spec fn formatted(fmt: Seq<char>, i: int, m: Moment) -> Seq<char>
    decreases fmt.len() - i,
{
    if i < 0 || i >= fmt.len() {
        Seq::empty()
    } else if i + 4 <= fmt.len() && fmt[i] == 'Y' && fmt[i + 1] == 'Y' && fmt[i + 2] == 'Y' && fmt[i + 3]
        == 'Y' {
        padded(m.year as int, 4) + formatted(fmt, i + 4, m)
    } else if i + 2 <= fmt.len() && field_at(fmt[i], fmt[i + 1], m) is Some {
        padded(field_at(fmt[i], fmt[i + 1], m)->0, 2) + formatted(fmt, i + 2, m)
    } else {
        seq![fmt[i]] + formatted(fmt, i + 1, m)
    }
}

/// The field that a pair of letters stands for.
pub open spec fn field_at(a: char, b: char, m: Moment) -> Option<int> {
    if a == 'M' && b == 'M' {
        Some(m.month as int)
    } else if a == 'D' && b == 'D' {
        Some(m.day as int)
    } else if a == 'H' && b == 'H' {
        Some(m.hour as int)
    } else if a == 'm' && b == 'm' {
        Some(m.minute as int)
    } else if a == 'S' && b == 'S' {
        Some(m.second as int)
    } else {
        None
    }
}

fn field_of(a: char, b: char, m: &Moment) -> (r: Option<i64>)
    ensures
        match r {
            Some(n) => field_at(a, b, *m) == Some(n as int),
            None => field_at(a, b, *m) is None,
        },
{
    if a == 'M' && b == 'M' {
        Some(m.month as i64)
    } else if a == 'D' && b == 'D' {
        Some(m.day as i64)
    } else if a == 'H' && b == 'H' {
        Some(m.hour)
    } else if a == 'm' && b == 'm' {
        Some(m.minute)
    } else if a == 'S' && b == 'S' {
        Some(m.second)
    } else {
        None
    }
}

/// The calendar fields of a time.
pub fn moment(secs: i64) -> (m: Moment)
    ensures
        is_moment(m, secs as int),
{
    let days: i64 = if secs >= 0 { secs / 86400 } else { -((86399 - secs as i128) / 86400) as i64 };
    let sod: i64 = (secs as i128 - days as i128 * 86400) as i64;
    let (year, month, day) = civil_from_days(days);
    Moment { year, month, day, hour: sod / 3600, minute: (sod % 3600) / 60, second: sod % 60 }
}

/// A time has one set of calendar fields.
pub proof fn law_moment_is_unique(a: Moment, b: Moment, secs: int)
    requires
        is_moment(a, secs),
        is_moment(b, secs),
    ensures
        a == b,
{
    let da = day_number(a.year as int, a.month as int, a.day as int);
    let db = day_number(b.year as int, b.month as int, b.day as int);
    assert(da == db);
    lemma_civil_is(a.year as int, a.month as int, a.day as int);
    lemma_civil_is(b.year as int, b.month as int, b.day as int);
}

/// The text of a time under a format.
pub open spec fn time_text(secs: int, fmt: Seq<char>) -> Seq<char> {
    formatted(fmt, 0, choose|m: Moment| is_moment(m, secs))
}

/// The text of a time, in seconds since the first of January 1970, under a format.
pub fn format_timestamp(secs: i64, fmt: &str) -> (r: String)
    ensures
        r@ == time_text(secs as int, fmt@),
{
    let m = moment(secs);
    proof {
        law_moment_is_unique(m, choose|x: Moment| is_moment(x, secs as int), secs as int);
    }
    let v = chars(fmt);
    let n: usize = v.len();
    let mut out = String::new();
    let mut i: usize = 0;
    while i < n
        invariant
            i <= n,
            n == v.len(),
            v@ == fmt@,
            out@ + formatted(fmt@, i as int, m) =~= formatted(fmt@, 0, m),
        decreases n - i,
    {
        let ghost before = out@;
        if n - i >= 4 && v[i] == 'Y' && v[i + 1] == 'Y' && v[i + 2] == 'Y' && v[i + 3] == 'Y' {
            let t = pad(m.year, 4);
            out.append(t.as_str());
            i = i + 4;
            continue;
        }
        if n - i >= 2 {
            if let Some(k) = field_of(v[i], v[i + 1], &m) {
                let t = pad(k, 2);
                out.append(t.as_str());
                i = i + 2;
                continue;
            }
        }
        out.push(v[i]);
        assert(out@ =~= before + seq![fmt@[i as int]]);
        i = i + 1;
    }
    out
}

/// The number that two digits at a position stand for.
pub open spec fn two(s: Seq<char>, i: int) -> Option<int> {
    if 0 <= i && i + 1 < s.len() && is_digit(s[i]) && is_digit(s[i + 1]) {
        Some((s[i] as int - 48) * 10 + (s[i + 1] as int - 48))
    } else {
        None
    }
}

/// The day of a date written as `YYYY-MM-DD` at the start of a text.
pub open spec fn date_of(s: Seq<char>) -> Option<int> {
    if s.len() >= 10 && s[4] == '-' && s[7] == '-' {
        match (two(s, 0), two(s, 2), two(s, 5), two(s, 8)) {
            (Some(c), Some(y), Some(m), Some(d)) => if 1 <= m <= 12 && 1 <= d <= 31 {
                Some(day_number(c * 100 + y, m, d))
            } else {
                None
            },
            _ => None,
        }
    } else {
        None
    }
}

/// The seconds of a time of day written as `HH:MM` or `HH:MM:SS` at a position, and the
/// position behind it.
pub open spec fn clock_of(s: Seq<char>, i: int) -> Option<(int, int)> {
    match (two(s, i), two(s, i + 3)) {
        (Some(h), Some(m)) => if s[i + 2] != ':' || h > 23 || m > 59 {
            None
        } else if i + 5 < s.len() && s[i + 5] == ':' {
            match two(s, i + 6) {
                Some(sec) => if sec > 60 {
                    None
                } else {
                    Some((h * 3600 + m * 60 + sec, i + 8))
                },
                None => None,
            }
        } else {
            Some((h * 3600 + m * 60, i + 5))
        },
        _ => None,
    }
}

/// The position behind the digits at a position.
pub open spec fn digits_end(s: Seq<char>, i: int) -> int
    decreases s.len() - i,
{
    if 0 <= i < s.len() && is_digit(s[i]) {
        digits_end(s, i + 1)
    } else {
        i
    }
}

/// The position behind an optional fraction: a point and at least one digit.
pub open spec fn fraction_end(s: Seq<char>, i: int) -> Option<int> {
    if 0 <= i < s.len() && s[i] == '.' {
        if i + 1 < s.len() && is_digit(s[i + 1]) {
            Some(digits_end(s, i + 1))
        } else {
            None
        }
    } else {
        Some(i)
    }
}

/// A number under a sign.
pub open spec fn signed(sign: char, n: int) -> int {
    if sign == '-' {
        -n
    } else {
        n
    }
}

/// The offset in seconds of an optional time zone, `Z`, `+HH`, `+HH:MM` or the same with
/// a minus sign, that ends the text.
pub open spec fn zone_of(s: Seq<char>, i: int) -> Option<int> {
    if i >= s.len() {
        if i == s.len() { Some(0) } else { None }
    } else if s[i] == 'Z' || s[i] == 'z' {
        if i + 1 == s.len() { Some(0) } else { None }
    } else if s[i] == '+' || s[i] == '-' {
        match two(s, i + 1) {
            Some(h) => if h > 23 {
                None
            } else if i + 3 < s.len() && s[i + 3] == ':' {
                match two(s, i + 4) {
                    Some(m) => if m > 59 || i + 6 != s.len() {
                        None
                    } else {
                        Some(signed(s[i], h * 3600 + m * 60))
                    },
                    None => None,
                }
            } else if i + 3 == s.len() {
                Some(signed(s[i], h * 3600))
            } else {
                None
            },
            None => None,
        }
    } else {
        None
    }
}

/// The time that a text gives, in seconds since the first of January 1970: a date, or a
/// date and a time of day behind `T` or a space, the latter with an optional fraction of
/// a second, which does not count, and an optional time zone.
pub open spec fn time_of(s: Seq<char>) -> Option<int> {
    match date_of(s) {
        None => None,
        Some(day) => if s.len() == 10 {
            Some(day * 86400)
        } else if s[10] != 'T' && s[10] != ' ' {
            None
        } else {
            match clock_of(s, 11) {
                None => None,
                Some((sod, i)) => match fraction_end(s, i) {
                    None => None,
                    Some(j) => match zone_of(s, j) {
                        None => None,
                        Some(offset) => Some(day * 86400 + sod - offset),
                    },
                },
            }
        },
    }
}

fn two_at(v: &Vec<char>, i: usize) -> (r: Option<i64>)
    ensures
        match r {
            Some(n) => two(v@, i as int) == Some(n as int) && 0 <= n <= 99,
            None => two(v@, i as int) is None,
        },
{
    if i < v.len() && v.len() - i > 1 && '0' <= v[i] && v[i] <= '9' && '0' <= v[i + 1] && v[i + 1] <= '9' {
        Some((v[i] as i64 - 48) * 10 + (v[i + 1] as i64 - 48))
    } else {
        None
    }
}

fn zone_at(v: &Vec<char>, i: usize) -> (r: Option<i64>)
    requires
        i <= v.len(),
    ensures
        match r {
            Some(n) => zone_of(v@, i as int) == Some(n as int) && -90000 <= n <= 90000,
            None => zone_of(v@, i as int) is None,
        },
{
    let n: usize = v.len();
    if i == n {
        return Some(0);
    }
    if v[i] == 'Z' || v[i] == 'z' {
        return if i + 1 == n { Some(0) } else { None };
    }
    if v[i] != '+' && v[i] != '-' {
        return None;
    }
    let minus = v[i] == '-';
    let h: i64 = match two_at(v, i + 1) {
        Some(h) => h,
        None => return None,
    };
    if h > 23 {
        return None;
    }
    let mut total: i64 = h * 3600;
    let mut j: usize = i + 3;
    if j < n && v[j] == ':' {
        match two_at(v, j + 1) {
            Some(m) => {
                if m > 59 {
                    return None;
                }
                total = total + m * 60;
            },
            None => return None,
        }
        j = j + 3;
    }
    if j != n {
        return None;
    }
    Some(if minus { -total } else { total })
}

/// The time that a text gives, in seconds since the first of January 1970.
pub fn parse_timestamp(s: &str) -> (r: Option<i64>)
    ensures
        match r {
            Some(n) => time_of(s@) == Some(n as int),
            None => time_of(s@) is None,
        },
{
    let v = chars(s);
    let n: usize = v.len();
    if n < 10 || v[4] != '-' || v[7] != '-' {
        return None;
    }
    let (c, y, m, d) = match (two_at(&v, 0), two_at(&v, 2), two_at(&v, 5), two_at(&v, 8)) {
        (Some(c), Some(y), Some(m), Some(d)) => (c, y, m, d),
        _ => return None,
    };
    if m < 1 || m > 12 || d < 1 || d > 31 {
        return None;
    }
    let day: i64 = days_from_civil(c * 100 + y, m as u32, d as u32);
    assert(-1000000 <= day <= 4000000);
    if n == 10 {
        return Some(day * 86400);
    }
    if v[10] != 'T' && v[10] != ' ' {
        return None;
    }
    let (h, mi) = match (two_at(&v, 11), two_at(&v, 14)) {
        (Some(h), Some(mi)) => (h, mi),
        _ => return None,
    };
    if v[13] != ':' || h > 23 || mi > 59 {
        return None;
    }
    let mut i: usize = 16;
    let mut sod: i64 = h * 3600 + mi * 60;
    if i < n && v[i] == ':' {
        match two_at(&v, i + 1) {
            Some(sec) => {
                if sec > 60 {
                    return None;
                }
                sod = sod + sec;
            },
            None => return None,
        }
        i = i + 3;
    }
    assert(clock_of(v@, 11) == Some((sod as int, i as int)));
    let ghost start = i as int;
    if i < n && v[i] == '.' {
        if n - i < 2 || v[i + 1] < '0' || v[i + 1] > '9' {
            return None;
        }
        i = i + 1;
        while i < n && '0' <= v[i] && v[i] <= '9'
            invariant
                i <= n,
                n == v.len(),
                digits_end(v@, start + 1) == digits_end(v@, i as int),
            decreases n - i,
        {
            i = i + 1;
        }
    }
    assert(fraction_end(v@, start) == Some(i as int));
    match zone_at(&v, i) {
        Some(offset) => Some(day * 86400 + sod - offset),
        None => None,
    }
}

/// Two digits read back the number that they were written for.
proof fn lemma_pair(n: int)
    requires
        0 <= n <= 99,
    ensures
        padded(n, 2) == seq![digit((n / 10) as nat), digit((n % 10) as nat)],
        is_digit(digit((n / 10) as nat)),
        is_digit(digit((n % 10) as nat)),
        (digit((n / 10) as nat) as int - 48) * 10 + (digit((n % 10) as nat) as int - 48) == n,
{
    reveal(padded);
    reveal_with_fuel(dec, 3);
    if n < 10 {
        assert(padded(n, 2) =~= seq![digit(0), digit(n as nat)]);
    } else {
        assert(padded(n, 2) =~= seq![digit((n / 10) as nat), digit((n % 10) as nat)]);
    }
}

/// Four digits are two pairs of digits.
proof fn lemma_year_digits(n: int)
    requires
        0 <= n <= 9999,
    ensures
        padded(n, 4) == padded(n / 100, 2) + padded(n % 100, 2),
{
    let a = n / 100;
    let b = n % 100;
    lemma_pair(a);
    lemma_pair(b);
    reveal(padded);
    reveal_with_fuel(dec, 5);
    assert(n / 10 / 10 == a);
    assert(n / 10 % 10 == b / 10);
    assert(n % 10 == b % 10);
    if n < 10 {
        assert(padded(n, 4) =~= padded(a, 2) + padded(b, 2));
    } else if n < 100 {
        assert(padded(n, 4) =~= padded(a, 2) + padded(b, 2));
    } else if n < 1000 {
        assert(n / 10 / 10 / 10 == 0);
        assert(padded(n, 4) =~= padded(a, 2) + padded(b, 2));
    } else {
        assert(n / 10 / 10 / 10 == a / 10);
        assert(padded(n, 4) =~= padded(a, 2) + padded(b, 2));
    }
}

/// The text that stands for a moment of the years 0 to 9999.
pub open spec fn plain_text(m: Moment) -> Seq<char> {
    padded(m.year as int / 100, 2) + padded(m.year as int % 100, 2) + seq!['-'] + padded(m.month as int, 2)
        + seq!['-'] + padded(m.day as int, 2) + seq![' '] + padded(m.hour as int, 2) + seq![':'] + padded(
        m.minute as int,
        2,
    ) + seq![':'] + padded(m.second as int, 2)
}

/// The steps of the format of a date and a time of day.
#[verifier::spinoff_prover]
proof fn lemma_plain_text(m: Moment)
    requires
        0 <= m.year <= 9999,
    ensures
        formatted("YYYY-MM-DD HH:mm:SS"@, 0, m) == plain_text(m),
{
    reveal_strlit("YYYY-MM-DD HH:mm:SS");
    let f = "YYYY-MM-DD HH:mm:SS"@;
    lemma_year_digits(m.year as int);
    let y1 = padded(m.year as int / 100, 2);
    let y2 = padded(m.year as int % 100, 2);
    let yy = padded(m.year as int, 4);
    let mo = padded(m.month as int, 2);
    let d = padded(m.day as int, 2);
    let h = padded(m.hour as int, 2);
    let mi = padded(m.minute as int, 2);
    let sec = padded(m.second as int, 2);
    assert(formatted(f, 19, m) == Seq::<char>::empty());
    assert(formatted(f, 17, m) == sec + formatted(f, 19, m));
    assert(formatted(f, 16, m) == seq![':'] + formatted(f, 17, m));
    assert(formatted(f, 14, m) == mi + formatted(f, 16, m));
    assert(formatted(f, 13, m) == seq![':'] + formatted(f, 14, m));
    assert(formatted(f, 11, m) == h + formatted(f, 13, m));
    assert(formatted(f, 10, m) == seq![' '] + formatted(f, 11, m));
    assert(formatted(f, 8, m) == d + formatted(f, 10, m));
    assert(formatted(f, 7, m) == seq!['-'] + formatted(f, 8, m));
    assert(formatted(f, 5, m) == mo + formatted(f, 7, m));
    assert(formatted(f, 4, m) == seq!['-'] + formatted(f, 5, m));
    assert(formatted(f, 0, m) == yy + formatted(f, 4, m));
    lemma_joined(yy, mo, d, h, mi, sec);
    assert(yy == y1 + y2);
}

/// Joining from the right gives the same text as joining from the left.
proof fn lemma_joined(a: Seq<char>, b: Seq<char>, c: Seq<char>, d: Seq<char>, e: Seq<char>, f: Seq<char>)
    ensures
        a + (seq!['-'] + (b + (seq!['-'] + (c + (seq![' '] + (d + (seq![':'] + (e + (seq![':'] + (f
            + Seq::<char>::empty())))))))))) == a + seq!['-'] + b + seq!['-'] + c + seq![' '] + d
            + seq![':'] + e + seq![':'] + f,
{
    assert(a + (seq!['-'] + (b + (seq!['-'] + (c + (seq![' '] + (d + (seq![':'] + (e + (seq![':'] + (f
        + Seq::<char>::empty())))))))))) =~= a + seq!['-'] + b + seq!['-'] + c + seq![' '] + d
        + seq![':'] + e + seq![':'] + f);
}

/// Where the fields stand in the text of a moment.
proof fn lemma_places(
    a: Seq<char>,
    b: Seq<char>,
    c: Seq<char>,
    d: Seq<char>,
    e: Seq<char>,
    f: Seq<char>,
    g: Seq<char>,
)
    requires
        a.len() == 2 && b.len() == 2 && c.len() == 2 && d.len() == 2 && e.len() == 2 && f.len() == 2
            && g.len() == 2,
    ensures
        ({
            let t = a + b + seq!['-'] + c + seq!['-'] + d + seq![' '] + e + seq![':'] + f + seq![':'] + g;
            &&& t.len() == 19
            &&& t[0] == a[0] && t[1] == a[1] && t[2] == b[0] && t[3] == b[1] && t[4] == '-'
            &&& t[5] == c[0] && t[6] == c[1] && t[7] == '-'
            &&& t[8] == d[0] && t[9] == d[1] && t[10] == ' '
            &&& t[11] == e[0] && t[12] == e[1] && t[13] == ':'
            &&& t[14] == f[0] && t[15] == f[1] && t[16] == ':'
            &&& t[17] == g[0] && t[18] == g[1]
        }),
{
}

/// A text with the fields of a moment at their places gives its time.
proof fn lemma_fields_read(t: Seq<char>, m: Moment, secs: int)
    requires
        is_moment(m, secs),
        0 <= m.year <= 9999,
        t.len() == 19,
        t[4] == '-' && t[7] == '-' && t[10] == ' ' && t[13] == ':' && t[16] == ':',
        two(t, 0) == Some(m.year as int / 100),
        two(t, 2) == Some(m.year as int % 100),
        two(t, 5) == Some(m.month as int),
        two(t, 8) == Some(m.day as int),
        two(t, 11) == Some(m.hour as int),
        two(t, 14) == Some(m.minute as int),
        two(t, 17) == Some(m.second as int),
    ensures
        time_of(t) == Some(secs),
{
    let y = m.year as int;
    assert(y / 100 * 100 + y % 100 == y);
    assert(date_of(t) == Some(day_number(y, m.month as int, m.day as int)));
    assert(clock_of(t, 11) == Some((m.hour * 3600 + m.minute * 60 + m.second, 19int)));
}

/// A pair of digits of a number, at its place in a text, reads as the number.
proof fn lemma_pair_read(t: Seq<char>, i: int, n: int)
    requires
        0 <= n <= 99,
        0 <= i,
        i + 1 < t.len(),
        padded(n, 2).len() == 2 ==> t[i] == padded(n, 2)[0] && t[i + 1] == padded(n, 2)[1],
    ensures
        two(t, i) == Some(n),
{
    lemma_pair(n);
}

/// The text of a moment has its fields at their places.
proof fn lemma_moment_text(m: Moment)
    requires
        0 <= m.year <= 9999,
        m.month <= 99,
        m.day <= 99,
        0 <= m.hour <= 99,
        0 <= m.minute <= 99,
        0 <= m.second <= 99,
    ensures
        ({
            let t = plain_text(m);
            &&& t.len() == 19
            &&& t[4] == '-' && t[7] == '-' && t[10] == ' ' && t[13] == ':' && t[16] == ':'
            &&& two(t, 0) == Some(m.year as int / 100)
            &&& two(t, 2) == Some(m.year as int % 100)
            &&& two(t, 5) == Some(m.month as int)
            &&& two(t, 8) == Some(m.day as int)
            &&& two(t, 11) == Some(m.hour as int)
            &&& two(t, 14) == Some(m.minute as int)
            &&& two(t, 17) == Some(m.second as int)
        }),
{
    let c = m.year as int / 100;
    let y = m.year as int % 100;
    assert(padded(c, 2).len() == 2 && padded(y, 2).len() == 2 && padded(m.month as int, 2).len() == 2
        && padded(m.day as int, 2).len() == 2 && padded(m.hour as int, 2).len() == 2 && padded(
        m.minute as int,
        2,
    ).len() == 2 && padded(m.second as int, 2).len() == 2) by {
        lemma_pair(c);
        lemma_pair(y);
        lemma_pair(m.month as int);
        lemma_pair(m.day as int);
        lemma_pair(m.hour as int);
        lemma_pair(m.minute as int);
        lemma_pair(m.second as int);
    }
    lemma_places(
        padded(c, 2),
        padded(y, 2),
        padded(m.month as int, 2),
        padded(m.day as int, 2),
        padded(m.hour as int, 2),
        padded(m.minute as int, 2),
        padded(m.second as int, 2),
    );
    let t = plain_text(m);
    lemma_pair_read(t, 0, c);
    lemma_pair_read(t, 2, y);
    lemma_pair_read(t, 5, m.month as int);
    lemma_pair_read(t, 8, m.day as int);
    lemma_pair_read(t, 11, m.hour as int);
    lemma_pair_read(t, 14, m.minute as int);
    lemma_pair_read(t, 17, m.second as int);
}

/// A time written as date and time of day reads back as the same time: for every time of
/// the years 0 to 9999.
pub proof fn law_time_reads_back(secs: int, m: Moment)
    requires
        is_moment(m, secs),
        0 <= m.year <= 9999,
    ensures
        time_of(time_text(secs, "YYYY-MM-DD HH:mm:SS"@)) == Some(secs),
{
    law_moment_is_unique(m, choose|x: Moment| is_moment(x, secs), secs);
    lemma_plain_text(m);
    lemma_moment_text(m);
    lemma_fields_read(plain_text(m), m, secs);
}

/// A time of day behind `T` or a space, with a time zone behind it, reads as the time less
/// the offset of the zone: none, `Z`, or hours with or without minutes.
pub proof fn law_zoned_time_reads_back(secs: int, m: Moment, c: char, z: Seq<char>)
    requires
        is_moment(m, secs),
        0 <= m.year <= 9999,
        c == 'T' || c == ' ',
        zone_of(z, 0) is Some,
    ensures
        time_text(secs, "YYYY-MM-DD HH:mm:SS"@).len() == 19,
        time_of(time_text(secs, "YYYY-MM-DD HH:mm:SS"@).update(10, c) + z) == Some(secs - zone_of(z, 0)->0),
{
    law_moment_is_unique(m, choose|x: Moment| is_moment(x, secs), secs);
    lemma_plain_text(m);
    lemma_moment_text(m);
    let t = plain_text(m);
    let u = t.update(10, c) + z;
    assert(u.len() == 19 + z.len());
    assert forall|i: int| 0 <= i < 19 && i != 10 implies u[i] == #[trigger] t[i] by {}
    assert(two(u, 0) == two(t, 0) && two(u, 2) == two(t, 2) && two(u, 5) == two(t, 5) && two(u, 8) == two(t, 8));
    assert(two(u, 11) == two(t, 11) && two(u, 14) == two(t, 14) && two(u, 17) == two(t, 17));
    let y = m.year as int;
    assert(y / 100 * 100 + y % 100 == y);
    assert(date_of(u) == Some(day_number(y, m.month as int, m.day as int)));
    assert(u[13] == ':' && u[16] == ':');
    assert(clock_of(u, 11) == Some((m.hour * 3600 + m.minute * 60 + m.second, 19int)));
    assert forall|i: int| 0 <= i < z.len() implies u[19 + i] == #[trigger] z[i] by {}
    if z.len() > 0 {
        assert(u[19] == z[0]);
    }
    assert(two(u, 20) == two(z, 1)) by {
        if z.len() > 2 {
            assert(u[20] == z[1] && u[21] == z[2]);
        }
    }
    assert(two(u, 23) == two(z, 4)) by {
        if z.len() > 5 {
            assert(u[23] == z[4] && u[24] == z[5]);
        }
    }
    if z.len() > 3 {
        assert(u[22] == z[3]);
    }
    assert(zone_of(u, 19) == zone_of(z, 0));
    assert(fraction_end(u, 19) == Some(19int));
}

} // verus!
