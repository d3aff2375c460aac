//! Calendar dates from the Unix clock.
use crate::text::{concat, decimal, decimal_text};
use vstd::prelude::*;

verus! {

/// Whether the year has a 29th of February, in the Gregorian calendar
/// carried back and forth without end.
pub open spec fn leap(y: int) -> bool {
    y % 4 == 0 && (y % 100 != 0 || y % 400 == 0)
}

/// The days of a month.
pub open spec fn month_length(y: int, m: int) -> int {
    if m == 2 {
        if leap(y) {
            29
        } else {
            28
        }
    } else if m == 4 || m == 6 || m == 9 || m == 11 {
        30
    } else {
        31
    }
}

/// Whether year, month and day make a date.
pub open spec fn valid_date(y: int, m: int, d: int) -> bool {
    1 <= m <= 12 && 1 <= d <= month_length(y, m)
}

/// The leap days in the years 1 to `y`; negative for years before.
pub open spec fn leap_days(y: int) -> int {
    y / 4 - y / 100 + y / 400
}

/// The days of the year before the month begins.
pub open spec fn days_before_month(y: int, m: int) -> int
    decreases m,
{
    if m <= 1 {
        0
    } else {
        days_before_month(y, m - 1) + month_length(y, m - 1)
    }
}

/// The days from 1970-01-01 to a date.
pub open spec fn day_number(y: int, m: int, d: int) -> int {
    365 * (y - 1970) + (leap_days(y - 1) - leap_days(1969)) + days_before_month(y, m) + (d - 1)
}

/// The date after a date.
pub open spec fn next_date(y: int, m: int, d: int) -> (int, int, int) {
    if d < month_length(y, m) {
        (y, m, d + 1)
    } else if m < 12 {
        (y, m + 1, 1)
    } else {
        (y + 1, 1, 1)
    }
}

/// `n` in decimal, filled up with zeros to at least `width` digits.
pub open spec fn padded(n: nat, width: nat) -> Seq<char> {
    let digits = decimal(n);
    if digits.len() >= width {
        digits
    } else {
        Seq::new((width - digits.len()) as nat, |i: int| '0') + digits
    }
}

/// A year in at least four places, the sign of a negative one being one of
/// them.
pub open spec fn year_text(y: int) -> Seq<char> {
    if y >= 0 {
        padded(y as nat, 4)
    } else {
        "-"@ + padded((-y) as nat, 3)
    }
}

/// A date as `YYYY-MM-DD`.
pub open spec fn date_text(y: int, m: int, d: int) -> Seq<char> {
    year_text(y) + "-"@ + padded(m as nat, 2) + "-"@ + padded(d as nat, 2)
}

/// Whether `text` is the date that lies `days` after 1970-01-01.
pub open spec fn is_date_of(text: Seq<char>, days: int) -> bool {
    exists|y: int, m: int, d: int| #[trigger]
        valid_date(y, m, d) && day_number(y, m, d) == days && text == date_text(y, m, d)
}

/// Whether `text` is the RFC 3339 UTC time `secs` seconds after the Unix
/// epoch.
pub open spec fn is_time_of(text: Seq<char>, secs: nat) -> bool {
    let clock = "T"@ + padded(secs % 86_400 / 3600, 2) + ":"@ + padded(secs % 3600 / 60, 2) + ":"@
        + padded(secs % 60, 2) + "Z"@;
    exists|date: Seq<char>| #[trigger]
        is_date_of(date, (secs / 86_400) as int) && text == date + clock
}

/// The RFC 3339 UTC time `secs` seconds after the Unix epoch.
pub open spec fn utc_text(secs: nat) -> Seq<char> {
    choose|text: Seq<char>| is_time_of(text, secs)
}

/// A Unix time has only one RFC 3339 text.
pub proof fn law_time_text_unique(a: Seq<char>, b: Seq<char>, secs: nat)
    requires
        is_time_of(a, secs),
        is_time_of(b, secs),
    ensures
        a == b,
{
    let days = (secs / 86_400) as int;
    let clock = "T"@ + padded(secs % 86_400 / 3600, 2) + ":"@ + padded(secs % 3600 / 60, 2) + ":"@
        + padded(secs % 60, 2) + "Z"@;
    let da = choose|date: Seq<char>| #[trigger] is_date_of(date, days) && a == date + clock;
    let db = choose|date: Seq<char>| #[trigger] is_date_of(date, days) && b == date + clock;
    let (y1, m1, d1) = choose|y: int, m: int, d: int| #[trigger]
        valid_date(y, m, d) && day_number(y, m, d) == days && da == date_text(y, m, d);
    let (y2, m2, d2) = choose|y: int, m: int, d: int| #[trigger]
        valid_date(y, m, d) && day_number(y, m, d) == days && db == date_text(y, m, d);
    law_day_number_injective(y1, m1, d1, y2, m2, d2);
}

/// The first day of the epoch is day zero, and from any date the next one
/// is one day on: so the day number counts days.
pub proof fn law_day_number_counts_days(y: int, m: int, d: int)
    requires
        valid_date(y, m, d),
    ensures
        day_number(1970, 1, 1) == 0,
        valid_date(next_date(y, m, d).0, next_date(y, m, d).1, next_date(y, m, d).2),
        day_number(next_date(y, m, d).0, next_date(y, m, d).1, next_date(y, m, d).2) == day_number(
            y,
            m,
            d,
        ) + 1,
{
    if d == month_length(y, m) && m == 12 {
        lemma_year_length(y);
        reveal_with_fuel(days_before_month, 13);
    }
}

/// A year has 365 days, and one more where it is a leap year.
proof fn lemma_year_length(y: int)
    ensures
        leap_days(y) - leap_days(y - 1) == if leap(y) {
            1int
        } else {
            0
        },
        days_before_month(y, 12) + 31 == if leap(y) {
            366int
        } else {
            365
        },
{
    lemma_leap_step(y);
    assert(days_before_month(y, 12) + 31 == if leap(y) {
        366int
    } else {
        365
    }) by {
        reveal_with_fuel(days_before_month, 13);
    }
}

/// A quotient steps up exactly at the multiples of its divisor.
proof fn lemma_quotient_step(y: int, n: int)
    requires
        n == 4 || n == 100 || n == 400,
    ensures
        y / n - (y - 1) / n == if y % n == 0 {
            1int
        } else {
            0
        },
{
    if n == 4 {
        assert(y / 4 - (y - 1) / 4 == if y % 4 == 0 {
            1int
        } else {
            0
        });
    } else if n == 100 {
        assert(y / 100 - (y - 1) / 100 == if y % 100 == 0 {
            1int
        } else {
            0
        });
    } else {
        assert(y / 400 - (y - 1) / 400 == if y % 400 == 0 {
            1int
        } else {
            0
        });
    }
}

/// A leap year adds a leap day.
proof fn lemma_leap_step(y: int)
    ensures
        leap_days(y) - leap_days(y - 1) == if leap(y) {
            1int
        } else {
            0
        },
{
    lemma_quotient_step(y, 4);
    lemma_quotient_step(y, 100);
    lemma_quotient_step(y, 400);
    vstd::arithmetic::div_mod::lemma_mod_mod(y, 100, 4);
    vstd::arithmetic::div_mod::lemma_mod_mod(y, 4, 25);
}

/// Days of a year run from nought to its length.
proof fn lemma_day_of_year(y: int, m: int, d: int)
    requires
        valid_date(y, m, d),
    ensures
        0 <= days_before_month(y, m) + d - 1 < (if leap(y) {
            366int
        } else {
            365
        }),
{
    reveal_with_fuel(days_before_month, 13);
}

/// The leap days only grow.
proof fn lemma_leap_days_monotonic(a: int, b: int)
    requires
        a <= b,
    ensures
        leap_days(a) <= leap_days(b),
    decreases b - a,
{
    if a < b {
        lemma_year_length(b);
        lemma_leap_days_monotonic(a, b - 1);
    }
}

/// No two dates have the same day number.
pub proof fn law_day_number_injective(y1: int, m1: int, d1: int, y2: int, m2: int, d2: int)
    requires
        valid_date(y1, m1, d1),
        valid_date(y2, m2, d2),
        day_number(y1, m1, d1) == day_number(y2, m2, d2),
    ensures
        y1 == y2 && m1 == m2 && d1 == d2,
{
    lemma_day_of_year(y1, m1, d1);
    lemma_day_of_year(y2, m2, d2);
    if y1 < y2 {
        lemma_year_length(y1);
        lemma_leap_days_monotonic(y1, y2 - 1);
    } else if y2 < y1 {
        lemma_year_length(y2);
        lemma_leap_days_monotonic(y2, y1 - 1);
    } else {
        reveal_with_fuel(days_before_month, 13);
    }
}

/// Where in a 400-year era the `doe`th day falls: the year of the era that
/// begins in March, and the day of that year.
proof fn lemma_year_of_era(doe: int)
    requires
        0 <= doe < 146_097,
    ensures
        ({
            let yoe = (doe - doe / 1460 + doe / 36_524 - doe / 146_096) / 365;
            let doy = doe - (365 * yoe + yoe / 4 - yoe / 100);
            &&& 0 <= yoe < 400
            &&& 0 <= doy <= 365
            &&& doy == 365 ==> leap(yoe + 1)
        }),
{
    let c = doe / 36_524;
    let yoe = (doe - doe / 1460 + doe / 36_524 - doe / 146_096) / 365;
    assert(0 <= c <= 4);
    assert(0 <= yoe < 400);
}

/// Years an era apart have their leap days an era apart.
proof fn lemma_era_shift(era: int, k: int)
    requires
        0 <= k < 400,
    ensures
        leap_days(400 * era + k) == 97 * era + k / 4 - k / 100,
        leap(400 * era + k + 1) == leap(k + 1),
{
    assert((400 * era + k) / 4 == 100 * era + k / 4);
    assert((400 * era + k) / 100 == 4 * era + k / 100);
    assert((400 * era + k) / 400 == era);
    assert((400 * era + k + 1) % 4 == (k + 1) % 4);
    assert((400 * era + k + 1) % 100 == (k + 1) % 100);
    assert((400 * era + k + 1) % 400 == (k + 1) % 400);
}

/// The days of the year before a month, counted from March.
proof fn lemma_months_from_march(y: int, mp: int)
    requires
        0 <= mp < 12,
    ensures
        mp < 10 ==> days_before_month(y, mp + 3) == 59 + (if leap(y) {
            1int
        } else {
            0
        }) + (153 * mp + 2) / 5,
        mp >= 10 ==> days_before_month(y + 1, mp - 9) == (153 * mp + 2) / 5 - 306,
        mp < 10 ==> (153 * (mp + 1) + 2) / 5 - (153 * mp + 2) / 5 == month_length(y, mp + 3),
        mp == 10 ==> (153 * (mp + 1) + 2) / 5 - (153 * mp + 2) / 5 == 31,
{
    reveal_with_fuel(days_before_month, 13);
    assert(mp == 0 || mp == 1 || mp == 2 || mp == 3 || mp == 4 || mp == 5 || mp == 6 || mp == 7
        || mp == 8 || mp == 9 || mp == 10 || mp == 11);
}

/// The day of an era that begins in March, read as a date.
proof fn lemma_date_of_era(era: int, yoe: int, doy: int)
    requires
        0 <= yoe < 400,
        0 <= doy <= 365,
        doy == 365 ==> leap(yoe + 1),
    ensures
        ({
            let mp = (5 * doy + 2) / 153;
            let d = doy - (153 * mp + 2) / 5 + 1;
            let m = if mp < 10 {
                mp + 3
            } else {
                mp - 9
            };
            let y = if m <= 2 {
                400 * era + yoe + 1
            } else {
                400 * era + yoe
            };
            &&& 0 <= mp < 12
            &&& valid_date(y, m, d)
            &&& day_number(y, m, d) == 146_097 * era + (365 * yoe + yoe / 4 - yoe / 100) + doy
                - 719_468
        }),
{
    let mp = (5 * doy + 2) / 153;
    let year = 400 * era + yoe;
    assert(0 <= mp < 12);
    lemma_era_shift(era, yoe);
    lemma_months_from_march(year, mp);
    lemma_leap_step(year);
    assert(leap_days(1969) == 477);
    let start = (153 * mp + 2) / 5;
    assert(start <= doy);
    if mp < 11 {
        assert(doy < (153 * (mp + 1) + 2) / 5);
    }
}

/// `n` in decimal, filled up with zeros to at least `width` digits.
pub fn padded_text(n: u128, width: usize) -> (r: String)
    ensures
        r@ == padded(n as nat, width as nat),
{
    let digits = decimal_text(n);
    let len: usize = digits.as_str().unicode_len();
    let mut out = String::new();
    let mut i: usize = len;
    while i < width
        invariant
            len == digits@.len(),
            len <= i,
            i <= width || i == len,
            out@ == Seq::new((i - len) as nat, |j: int| '0'),
        decreases width - i,
    {
        let ghost before = out@;
        out.push('0');
        assert(out@ == Seq::new((i + 1 - len) as nat, |j: int| '0'));
        i = i + 1;
    }
    out.append(digits.as_str());
    assert(out@ == padded(n as nat, width as nat));
    out
}

/// A date as `YYYY-MM-DD`.
fn date(y: i64, m: u64, d: u64) -> (r: String)
    requires
        y > i64::MIN,
    ensures
        r@ == date_text(y as int, m as int, d as int),
{
    let mut out = if y >= 0 {
        padded_text(y as u128, 4)
    } else {
        concat("-", padded_text((-y) as u128, 3).as_str())
    };
    out.append("-");
    out.append(padded_text(m as u128, 2).as_str());
    out.append("-");
    out.append(padded_text(d as u128, 2).as_str());
    out
}

/// The date a number of days after 1970-01-01, by Howard Hinnant's
/// civil-from-days.
pub fn civil_from_days(days: i64) -> (r: String)
    requires
        days <= i64::MAX - 719_468,
    ensures
        is_date_of(r@, days as int),
{
    let z: i64 = days + 719_468;
    let era: i64;
    let doe: u64;
    if z >= 0 {
        let u: u64 = z as u64;
        era = (u / 146_097) as i64;
        doe = u % 146_097;
    } else {
        let u: u64 = (-(z + 1)) as u64;
        era = -((u / 146_097) as i64) - 1;
        doe = 146_096 - u % 146_097;
    }
    assert(z == 146_097 * era + doe);
    proof {
        lemma_year_of_era(doe as int);
    }
    let yoe: u64 = (doe - doe / 1460 + doe / 36_524 - doe / 146_096) / 365;
    let doy: u64 = doe - (yoe * 365 + yoe / 4 - yoe / 100);
    let mp: u64 = (5 * doy + 2) / 153;
    proof {
        lemma_date_of_era(era as int, yoe as int, doy as int);
    }
    let d: u64 = doy + 1 - (153 * mp + 2) / 5;
    let m: u64 = if mp < 10 {
        mp + 3
    } else {
        mp - 9
    };
    let march_year: i64 = yoe as i64 + era * 400;
    let y: i64 = if m <= 2 {
        march_year + 1
    } else {
        march_year
    };
    assert(valid_date(y as int, m as int, d as int));
    date(y, m, d)
}

/// The RFC 3339 UTC time of a Unix time.
pub fn utc_time(secs: u64) -> (r: String)
    ensures
        is_time_of(r@, secs as nat),
        r@ == utc_text(secs as nat),
{
    let date = civil_from_days((secs / 86_400) as i64);
    let mut out = date.clone();
    out.append("T");
    out.append(padded_text((secs % 86_400 / 3600) as u128, 2).as_str());
    out.append(":");
    out.append(padded_text((secs % 3600 / 60) as u128, 2).as_str());
    out.append(":");
    out.append(padded_text((secs % 60) as u128, 2).as_str());
    out.append("Z");
    proof {
        let n = secs as nat;
        let clock = "T"@ + padded(n % 86_400 / 3600, 2) + ":"@ + padded(n % 3600 / 60, 2) + ":"@
            + padded(n % 60, 2) + "Z"@;
        assert(out@ == date@ + clock);
        assert(is_time_of(out@, n));
        law_time_text_unique(out@, utc_text(n), n);
    }
    out
}

}
