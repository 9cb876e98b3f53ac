//! The proleptic Gregorian calendar, relative to the Unix epoch: what a
//! year/month/day triple means as a count of days since 1970-01-01, and what
//! a civil date-time means as a count of seconds since the epoch.

use vstd::prelude::*;

use vstd::arithmetic::div_mod::lemma_fundamental_div_mod;
use vstd::arithmetic::div_mod::lemma_fundamental_div_mod_converse;
use vstd::arithmetic::div_mod::lemma_mod_division_less_than_divisor;
use vstd::arithmetic::div_mod::lemma_mod_multiples_basic;

verus! {

/// A leap year of the Gregorian calendar.
pub open spec fn is_leap_year(y: int) -> bool {
    y % 4 == 0 && (y % 100 != 0 || y % 400 == 0)
}

/// Days in the year `y`.
pub open spec fn days_in_year(y: int) -> int {
    if is_leap_year(y) {
        366
    } else {
        365
    }
}

/// Days in month `m` of year `y`.
pub open spec fn days_in_month(y: int, m: int) -> int {
    if m == 2 {
        if is_leap_year(y) {
            29
        } else {
            28
        }
    } else if m == 4 || m == 6 || m == 9 || m == 11 {
        30
    } else {
        31
    }
}

/// Days from the first of January of year `y` to the first of month `m`.
pub open spec fn days_before_month(y: int, m: int) -> int
    decreases m,
{
    if m <= 1 {
        0
    } else {
        days_before_month(y, m - 1) + days_in_month(y, m - 1)
    }
}

/// Days from 1970-01-01 to the first of January of year `y`; negative for
/// years before 1970.
pub open spec fn days_to_year(y: int) -> int
    decreases (if y >= 1970 {
        y - 1970
    } else {
        1970 - y
    }),
{
    if y == 1970 {
        0
    } else if y > 1970 {
        days_to_year(y - 1) + days_in_year(y - 1)
    } else {
        days_to_year(y + 1) - days_in_year(y)
    }
}

/// Days from 1970-01-01 to the civil date `y`-`m`-`d`.
pub open spec fn day_number(y: int, m: int, d: int) -> int {
    days_to_year(y) + days_before_month(y, m) + (d - 1)
}

/// A well-formed civil date within the representable years.
pub open spec fn valid_civil(y: int, m: int, d: int) -> bool {
    1 <= y <= 9999 && 1 <= m <= 12 && 1 <= d <= days_in_month(y, m)
}

/// A well-formed time of day.
pub open spec fn valid_clock(h: int, mi: int, s: int) -> bool {
    0 <= h < 24 && 0 <= mi < 60 && 0 <= s < 60
}

/// Seconds from the epoch to the civil date-time, taken in UTC.
pub open spec fn civil_secs(y: int, m: int, d: int, h: int, mi: int, s: int) -> int {
    day_number(y, m, d) * 86400 + h * 3600 + mi * 60 + s
}

/// `days_to_year` grows by at most 366 days per year away from 1970.
pub proof fn lemma_days_to_year_bound(y: int)
    requires
        1 <= y <= 10000,
    ensures
        y >= 1970 ==> 0 <= days_to_year(y) <= 366 * (y - 1970),
        y <= 1970 ==> -366 * (1970 - y) <= days_to_year(y) <= 0,
    decreases (if y >= 1970 {
        y - 1970
    } else {
        1970 - y
    }),
{
    if y > 1970 {
        lemma_days_to_year_bound(y - 1);
    } else if y < 1970 {
        lemma_days_to_year_bound(y + 1);
    }
}

/// `days_before_month` stays below one year of days.
pub proof fn lemma_days_before_month_bound(y: int, m: int)
    requires
        1 <= m <= 13,
    ensures
        0 <= days_before_month(y, m) <= 31 * (m - 1),
    decreases m,
{
    if m > 1 {
        lemma_days_before_month_bound(y, m - 1);
    }
}

/// The months of a year sum to the days of that year.
pub proof fn lemma_year_month_sum(y: int)
    ensures
        days_before_month(y, 13) == days_in_year(y),
{
    reveal_with_fuel(days_before_month, 14);
}

/// `days_before_month` grows with the month.
pub proof fn lemma_days_before_month_mono(y: int, m1: int, m2: int)
    requires
        m1 <= m2,
    ensures
        days_before_month(y, m1) <= days_before_month(y, m2),
    decreases m2 - m1,
{
    if m1 < m2 {
        lemma_days_before_month_mono(y, m1, m2 - 1);
    }
}

/// `days_to_year` grows with the year.
pub proof fn lemma_days_to_year_mono(y1: int, y2: int)
    requires
        y1 <= y2,
    ensures
        days_to_year(y1) <= days_to_year(y2),
    decreases y2 - y1,
{
    if y1 < y2 {
        lemma_days_to_year_mono(y1, y2 - 1);
        lemma_days_to_year_step(y2 - 1);
    }
}

/// One year forward adds that year's days.
pub proof fn lemma_days_to_year_step(y: int)
    ensures
        days_to_year(y + 1) == days_to_year(y) + days_in_year(y),
{
    if y + 1 > 1970 {
    } else {
        assert(days_to_year(y) == days_to_year(y + 1) - days_in_year(y));
    }
}

/// Count of leap years in the years 1 to `x`.
pub open spec fn leap_count(x: int) -> int {
    x / 4 - x / 100 + x / 400
}

/// Dividing `y` rather than `y - 1` by `k` adds one exactly when `k`
/// divides `y`.
proof fn lemma_div_step(y: int, k: int)
    requires
        y >= 1,
        k >= 1,
    ensures
        y / k == (y - 1) / k + (if y % k == 0 {
            1int
        } else {
            0int
        }),
{
    lemma_fundamental_div_mod(y - 1, k);
    lemma_mod_division_less_than_divisor(y - 1, k);
    let q = (y - 1) / k;
    let r = (y - 1) % k;
    if r == k - 1 {
        assert(y == (q + 1) * k + 0) by (nonlinear_arith)
            requires
                y - 1 == k * q + r,
                r == k - 1,
        ;
        lemma_fundamental_div_mod_converse(y, k, q + 1, 0);
    } else {
        assert(y == q * k + (r + 1)) by (nonlinear_arith)
            requires
                y - 1 == k * q + r,
        ;
        lemma_fundamental_div_mod_converse(y, k, q, r + 1);
    }
}

/// Divisibility by 400 implies divisibility by 100 and 4; divisibility by
/// 100 implies divisibility by 4.
proof fn lemma_leap_divisors(y: int)
    ensures
        y % 400 == 0 ==> y % 100 == 0 && y % 4 == 0,
        y % 100 == 0 ==> y % 4 == 0,
{
    if y % 400 == 0 {
        lemma_fundamental_div_mod(y, 400);
        let q = y / 400;
        assert(y == (4 * q) * 100) by (nonlinear_arith)
            requires
                y == 400 * q,
        ;
        lemma_mod_multiples_basic(4 * q, 100);
    }
    if y % 100 == 0 {
        lemma_fundamental_div_mod(y, 100);
        let q = y / 100;
        assert(y == (25 * q) * 4) by (nonlinear_arith)
            requires
                y == 100 * q,
        ;
        lemma_mod_multiples_basic(25 * q, 4);
    }
}

/// The leap count steps by one exactly at leap years.
proof fn lemma_leap_delta(y: int)
    requires
        y >= 1,
    ensures
        leap_count(y) - leap_count(y - 1) == (if is_leap_year(y) {
            1int
        } else {
            0int
        }),
{
    lemma_div_step(y, 4);
    lemma_div_step(y, 100);
    lemma_div_step(y, 400);
    lemma_leap_divisors(y);
}

/// The closed form of `days_to_year`: 365 days a year plus the leap days,
/// shifted to the epoch.
pub proof fn lemma_days_to_year_closed(y: int)
    requires
        1 <= y <= 10001,
    ensures
        days_to_year(y) == 365 * (y - 1970) + leap_count(y - 1) - 477,
    decreases (if y >= 1970 {
        y - 1970
    } else {
        1970 - y
    }),
{
    if y == 1970 {
        lemma_fundamental_div_mod_converse(1969, 4, 492, 1);
        lemma_fundamental_div_mod_converse(1969, 100, 19, 69);
        lemma_fundamental_div_mod_converse(1969, 400, 4, 369);
    } else if y > 1970 {
        lemma_days_to_year_closed(y - 1);
        lemma_days_to_year_step(y - 1);
        lemma_leap_delta(y - 1);
    } else {
        lemma_days_to_year_closed(y + 1);
        lemma_days_to_year_step(y);
        lemma_leap_delta(y);
    }
}

/// The day after the last representable date.
pub proof fn lemma_days_to_year_top()
    ensures
        days_to_year(10000) == 2932897,
{
    lemma_days_to_year_closed(10000);
    lemma_fundamental_div_mod_converse(9999, 4, 2499, 3);
    lemma_fundamental_div_mod_converse(9999, 100, 99, 99);
    lemma_fundamental_div_mod_converse(9999, 400, 24, 399);
}

/// The first representable date.
pub proof fn lemma_days_to_year_bottom()
    ensures
        days_to_year(1) == -719162,
{
    lemma_days_to_year_closed(1);
    lemma_fundamental_div_mod_converse(0, 4, 0, 0);
    lemma_fundamental_div_mod_converse(0, 100, 0, 0);
    lemma_fundamental_div_mod_converse(0, 400, 0, 0);
}

/// Days in the year `y`, computed.
fn year_days(y: i64) -> (r: i64)
    requires
        1 <= y <= 10000,
    ensures
        r == days_in_year(y as int),
{
    if y % 4 == 0 && (y % 100 != 0 || y % 400 == 0) {
        366
    } else {
        365
    }
}

/// Days in month `m` of year `y`, computed.
fn month_days(y: i64, m: u8) -> (r: i64)
    requires
        1 <= y <= 10000,
        1 <= m <= 12,
    ensures
        r == days_in_month(y as int, m as int),
{
    if m == 2 {
        if y % 4 == 0 && (y % 100 != 0 || y % 400 == 0) {
            29
        } else {
            28
        }
    } else if m == 4 || m == 6 || m == 9 || m == 11 {
        30
    } else {
        31
    }
}

/// The day number of a civil date: days since 1970-01-01.
pub fn day_number_exec(y: i64, m: u8, d: u8) -> (r: i64)
    requires
        valid_civil(y as int, m as int, d as int),
    ensures
        r == day_number(y as int, m as int, d as int),
        -4000000 <= r <= 4000000,
{
    let mut days: i64 = 0;
    let mut yr: i64 = 1970;
    if y >= 1970 {
        while yr < y
            invariant
                1970 <= yr <= y,
                y <= 9999,
                days == days_to_year(yr as int),
            decreases y - yr,
        {
            proof {
                lemma_days_to_year_bound(yr as int);
            }
            days = days + year_days(yr);
            yr = yr + 1;
        }
    } else {
        while yr > y
            invariant
                y <= yr <= 1970,
                y >= 1,
                days == days_to_year(yr as int),
            decreases yr - y,
        {
            proof {
                lemma_days_to_year_bound(yr as int - 1);
                lemma_days_to_year_bound(yr as int);
            }
            yr = yr - 1;
            days = days - year_days(yr);
        }
    }
    proof {
        lemma_days_to_year_bound(y as int);
    }
    let mut mdays: i64 = 0;
    let mut mo: u8 = 1;
    while mo < m
        invariant
            1 <= mo <= m,
            m <= 12,
            1 <= y <= 9999,
            mdays == days_before_month(y as int, mo as int),
            0 <= mdays <= 31 * (mo - 1),
        decreases m - mo,
    {
        proof {
            lemma_days_before_month_bound(y as int, mo as int + 1);
        }
        mdays = mdays + month_days(y, mo);
        mo = mo + 1;
    }
    days + mdays + ((d - 1) as i64)
}

} // verus!
