//! Proleptic Gregorian calendar: the date of a day counted from
//! 1970-01-01, as shown next to a subscription's expiry.

use vstd::prelude::*;
use vstd::arithmetic::div_mod::{lemma_fundamental_div_mod, lemma_fundamental_div_mod_converse};

verus! {

/// Gregorian leap year.
pub open spec fn is_leap(y: int) -> bool {
    y % 4 == 0 && (y % 100 != 0 || y % 400 == 0)
}

/// Length of month `m` (1 = January) of year `y`.
pub open spec fn days_in_month(y: int, m: int) -> int {
    if m == 2 {
        if is_leap(y) {
            29
        } else {
            28
        }
    } else if m == 4 || m == 6 || m == 9 || m == 11 {
        30
    } else {
        31
    }
}

/// Days of year `y` before the first of month `m`.
pub open spec fn days_before_month(y: int, m: int) -> int
    decreases m,
{
    if m <= 1 {
        0
    } else {
        days_before_month(y, m - 1) + days_in_month(y, m - 1)
    }
}

/// Number of leap years among the years `1..=n`.
pub open spec fn leap_years_through(n: int) -> int {
    n / 4 - n / 100 + n / 400
}

/// Days from 1970-01-01 to `y-m-d`.
pub open spec fn days_from_civil(y: int, m: int, d: int) -> int {
    365 * (y - 1970) + (leap_years_through(y - 1) - leap_years_through(1969)) + days_before_month(y, m)
        + d - 1
}

/// `y-m-d` names a day of the calendar.
pub open spec fn valid_date(y: int, m: int, d: int) -> bool {
    1 <= m <= 12 && 1 <= d <= days_in_month(y, m)
}

/// Within a 400-year era counted from March 1st, day `doe` falls in year
/// `yoe` of the era on day `doy` of that (March-based) year.
proof fn lemma_year_of_era(doe: u64)
    requires
        doe <= 146096,
    ensures
        ({
            let yoe = (doe - doe / 1460 + doe / 36524 - doe / 146096) / 365;
            let start = 365 * yoe + yoe / 4 - yoe / 100;
            &&& yoe <= 399
            &&& start <= doe
            &&& doe - start <= 364 || (doe - start == 365 && (yoe + 1) % 4 == 0 && ((yoe + 1)
                % 100 != 0 || yoe == 399))
        }),
{
    assert({
        let yoe = (doe - doe / 1460 + doe / 36524 - doe / 146096) / 365;
        let start = 365 * yoe + yoe / 4 - yoe / 100;
        &&& yoe <= 399
        &&& start <= doe
        &&& doe - start <= 364 || (doe - start == 365 && (yoe + 1) % 4 == 0 && ((yoe + 1) % 100
            != 0 || yoe == 399))
    }) by (bit_vector)
        requires
            doe <= 146096,
    ;
}

/// Shifting a numerator by a multiple of the divisor.
proof fn lemma_div_shift(k: int, r: int, q: int)
    requires
        q > 0,
    ensures
        (q * k + r) / q == k + r / q,
        (q * k + r) % q == r % q,
{
    lemma_fundamental_div_mod(r, q);
    assert(q * k + r == (k + r / q) * q + r % q) by (nonlinear_arith)
        requires
            r == q * (r / q) + r % q,
    ;
    lemma_fundamental_div_mod_converse(q * k + r, q, k + r / q, r % q);
}

/// Leap years counted up to a year that starts a 400-year era, plus `k`.
proof fn lemma_leaps_in_era(era: int, k: int)
    requires
        0 <= k < 400,
    ensures
        leap_years_through(400 * era + k) == 97 * era + k / 4 - k / 100,
{
    lemma_div_shift(100 * era, k, 4);
    lemma_div_shift(4 * era, k, 100);
    lemma_div_shift(era, k, 400);
    assert(4 * (100 * era) == 400 * era);
    assert(100 * (4 * era) == 400 * era);
}

/// The leap-year test sees only the year within its 400-year era.
proof fn lemma_leap_in_era(era: int, k: int)
    ensures
        is_leap(400 * era + k) == is_leap(k),
{
    lemma_div_shift(100 * era, k, 4);
    lemma_div_shift(4 * era, k, 100);
    lemma_div_shift(era, k, 400);
    assert(4 * (100 * era) == 400 * era);
    assert(100 * (4 * era) == 400 * era);
}

/// Days before each month, spelled out.
proof fn lemma_days_before_month(y: int)
    ensures
        days_before_month(y, 1) == 0,
        days_before_month(y, 2) == 31,
        days_before_month(y, 3) == 59 + (if is_leap(y) { 1int } else { 0 }),
        days_before_month(y, 4) == 90 + (if is_leap(y) { 1int } else { 0 }),
        days_before_month(y, 5) == 120 + (if is_leap(y) { 1int } else { 0 }),
        days_before_month(y, 6) == 151 + (if is_leap(y) { 1int } else { 0 }),
        days_before_month(y, 7) == 181 + (if is_leap(y) { 1int } else { 0 }),
        days_before_month(y, 8) == 212 + (if is_leap(y) { 1int } else { 0 }),
        days_before_month(y, 9) == 243 + (if is_leap(y) { 1int } else { 0 }),
        days_before_month(y, 10) == 273 + (if is_leap(y) { 1int } else { 0 }),
        days_before_month(y, 11) == 304 + (if is_leap(y) { 1int } else { 0 }),
        days_before_month(y, 12) == 334 + (if is_leap(y) { 1int } else { 0 }),
        days_before_month(y, 13) == 365 + (if is_leap(y) { 1int } else { 0 }),
{
    reveal_with_fuel(days_before_month, 14);
}

/// Start of each month of a March-based year (0 = March).
spec fn march_base(mp: int) -> int {
    if mp == 0 {
        0
    } else if mp == 1 {
        31
    } else if mp == 2 {
        61
    } else if mp == 3 {
        92
    } else if mp == 4 {
        122
    } else if mp == 5 {
        153
    } else if mp == 6 {
        184
    } else if mp == 7 {
        214
    } else if mp == 8 {
        245
    } else if mp == 9 {
        275
    } else if mp == 10 {
        306
    } else {
        337
    }
}

/// Length of each month of a March-based year, February counted short.
spec fn march_len(mp: int) -> int {
    if mp == 1 || mp == 3 || mp == 6 || mp == 8 {
        30
    } else if mp == 11 {
        28
    } else {
        31
    }
}

/// The month index `(5 * doy + 2) / 153` and the month start
/// `(153 * mp + 2) / 5` of a day of a March-based year.
proof fn lemma_month_of(doy: u64)
    requires
        doy <= 365,
    ensures
        ({
            let mp = (5 * doy + 2) / 153;
            &&& mp <= 11
            &&& (153 * mp + 2) / 5 == march_base(mp as int)
            &&& march_base(mp as int) <= doy
            &&& doy - march_base(mp as int) < march_len(mp as int) || (mp == 11 && doy == 365)
        }),
{
    assert({
        let mp = (5 * doy + 2) / 153;
        let base = (153 * mp + 2) / 5;
        &&& mp <= 11
        &&& (mp == 0 ==> base == 0 && doy <= 30)
        &&& (mp == 1 ==> base == 31 && 31 <= doy <= 60)
        &&& (mp == 2 ==> base == 61 && 61 <= doy <= 91)
        &&& (mp == 3 ==> base == 92 && 92 <= doy <= 121)
        &&& (mp == 4 ==> base == 122 && 122 <= doy <= 152)
        &&& (mp == 5 ==> base == 153 && 153 <= doy <= 183)
        &&& (mp == 6 ==> base == 184 && 184 <= doy <= 213)
        &&& (mp == 7 ==> base == 214 && 214 <= doy <= 244)
        &&& (mp == 8 ==> base == 245 && 245 <= doy <= 274)
        &&& (mp == 9 ==> base == 275 && 275 <= doy <= 305)
        &&& (mp == 10 ==> base == 306 && 306 <= doy <= 336)
        &&& (mp == 11 ==> base == 337 && 337 <= doy)
    }) by (bit_vector)
        requires
            doy <= 365,
    ;
}

/// Days before month `mp + 3` (March-based `mp` below 10) of a year.
proof fn lemma_spring_month(y: int, mp: int)
    requires
        0 <= mp <= 9,
    ensures
        days_before_month(y, mp + 3) == 59 + (if is_leap(y) { 1int } else { 0 }) + march_base(mp),
        days_in_month(y, mp + 3) == march_len(mp),
{
    lemma_days_before_month(y);
}

/// A day of a March-based year of an era, turned into a calendar date.
proof fn lemma_assemble(era: int, yoe: int, doy: int)
    requires
        era >= 0,
        0 <= yoe <= 399,
        0 <= doy <= 364 || (doy == 365 && is_leap(yoe + 1)),
    ensures
        ({
            let mp = (5 * doy + 2) / 153;
            let d = doy - (153 * mp + 2) / 5 + 1;
            let m = if mp < 10 { mp + 3 } else { mp - 9 };
            let y = 400 * era + yoe + (if m <= 2 { 1int } else { 0 });
            &&& 0 <= mp <= 11
            &&& valid_date(y, m, d)
            &&& days_from_civil(y, m, d) == 146097 * era + 365 * yoe + yoe / 4 - yoe / 100 + doy
                - 719468
        }),
{
    lemma_month_of(doy as u64);
    let mp = (5 * doy + 2) / 153;
    let d = doy - (153 * mp + 2) / 5 + 1;
    assert(d == doy - march_base(mp) + 1);
    assert(leap_years_through(1969) == 477);
    if mp >= 10 {
        let y = 400 * era + yoe + 1;
        lemma_days_before_month(y);
        lemma_leap_in_era(era, yoe + 1);
        lemma_leaps_in_era(era, yoe);
        assert(leap_years_through(y - 1) == 97 * era + yoe / 4 - yoe / 100);
        assert(valid_date(y, mp - 9, d));
    } else {
        let y = 400 * era + yoe;
        lemma_spring_month(y, mp);
        lemma_leap_in_era(era, yoe);
        if yoe >= 1 {
            lemma_leaps_in_era(era, yoe - 1);
            assert(leap_years_through(y - 1) == 97 * era + (yoe - 1) / 4 - (yoe - 1) / 100);
            assert(yoe / 4 - (yoe - 1) / 4 == (if yoe % 4 == 0 { 1int } else { 0 }));
            assert(yoe / 100 - (yoe - 1) / 100 == (if yoe % 100 == 0 { 1int } else { 0 }));
        } else {
            lemma_leaps_in_era(era - 1, 399);
            assert(leap_years_through(y - 1) == 97 * era - 1);
        }
        assert(valid_date(y, mp + 3, d));
    }
}

/// One more year, one more leap year exactly when it is a leap year.
proof fn lemma_leap_step(n: int)
    ensures
        leap_years_through(n) - leap_years_through(n - 1) == (if is_leap(n) { 1int } else { 0 }),
{
    lemma_fundamental_div_mod(n - 1, 4);
    lemma_fundamental_div_mod(n - 1, 100);
    lemma_fundamental_div_mod(n - 1, 400);
    lemma_div_shift((n - 1) / 4, (n - 1) % 4 + 1, 4);
    lemma_div_shift((n - 1) / 100, (n - 1) % 100 + 1, 100);
    lemma_div_shift((n - 1) / 400, (n - 1) % 400 + 1, 400);
}

/// New Year's Day of year `b` comes at least `365 * (b - a)` days after
/// that of year `a`, and exactly `365 + 1 if leap` days after the year
/// before it.
proof fn lemma_new_year(a: int, b: int)
    requires
        a <= b,
    ensures
        days_from_civil(a, 1, 1) + 365 * (b - a) <= days_from_civil(b, 1, 1),
        days_from_civil(a + 1, 1, 1) == days_from_civil(a, 1, 1) + 365 + (if is_leap(a) { 1int } else { 0 }),
    decreases b - a,
{
    lemma_leap_step(a);
    if a < b {
        lemma_new_year(a + 1, b);
    }
}

/// Day of the year of a valid date: below the year's length, and naming
/// one (month, day) only.
proof fn lemma_day_of_year(y: int, m1: int, d1: int, m2: int, d2: int)
    requires
        valid_date(y, m1, d1),
        valid_date(y, m2, d2),
    ensures
        0 <= days_before_month(y, m1) + d1 - 1 < 365 + (if is_leap(y) { 1int } else { 0 }),
        days_before_month(y, m1) + d1 == days_before_month(y, m2) + d2 ==> m1 == m2 && d1 == d2,
{
    lemma_days_before_month(y);
}

/// A day count names at most one calendar date.
pub proof fn lemma_civil_unique(y1: int, m1: int, d1: int, y2: int, m2: int, d2: int)
    requires
        valid_date(y1, m1, d1),
        valid_date(y2, m2, d2),
        days_from_civil(y1, m1, d1) == days_from_civil(y2, m2, d2),
    ensures
        y1 == y2 && m1 == m2 && d1 == d2,
{
    lemma_day_of_year(y1, m1, d1, m1, d1);
    lemma_day_of_year(y2, m2, d2, m2, d2);
    if y1 < y2 {
        lemma_new_year(y1, y2);
        lemma_new_year(y1 + 1, y2);
    } else if y2 < y1 {
        lemma_new_year(y2, y1);
        lemma_new_year(y2 + 1, y1);
    } else {
        lemma_day_of_year(y1, m1, d1, m2, d2);
    }
}

/// The calendar date `(year, month, day)` of day `days` counted from
/// 1970-01-01.
pub open spec fn civil_from_days(days: int) -> (int, int, int) {
    choose|y: int, m: int, d: int| valid_date(y, m, d) && days_from_civil(y, m, d) == days
}

/// A valid date is the date of its own day count.
pub proof fn lemma_civil_from_days(y: int, m: int, d: int)
    requires
        valid_date(y, m, d),
    ensures
        civil_from_days(days_from_civil(y, m, d)) == (y, m, d),
{
    let days = days_from_civil(y, m, d);
    assert(exists|y2: int, m2: int, d2: int| valid_date(y2, m2, d2) && days_from_civil(y2, m2, d2) == days) by {
        assert(valid_date(y, m, d) && days_from_civil(y, m, d) == days);
    }
    let (y2, m2, d2) = civil_from_days(days);
    lemma_civil_unique(y, m, d, y2, m2, d2);
}

/// Year (cut to 32 bits), month and day of day `days` counted from
/// 1970-01-01.
pub fn days_to_ymd(days: u64) -> (r: (u32, u32, u32))
    requires
        days <= i64::MAX - 719468,
    ensures
        r.0 == civil_from_days(days as int).0 as u32,
        r.1 == civil_from_days(days as int).1,
        r.2 == civil_from_days(days as int).2,
{
    let z: i64 = days as i64 + 719468;
    let era: i64 = if z >= 0 {
        z
    } else {
        z - 146096
    } / 146097;
    assert(era * 146097 <= z && z - era * 146097 < 146097) by (nonlinear_arith)
        requires
            z >= 0,
            era == z / 146097,
    ;
    let doe: u64 = (z - era * 146097) as u64;
    proof {
        lemma_year_of_era(doe);
    }
    let yoe: u64 = (doe - doe / 1460 + doe / 36524 - doe / 146096) / 365;
    let y: i64 = yoe as i64 + era * 400;
    let doy: u64 = doe - (365 * yoe + yoe / 4 - yoe / 100);
    let mp: u64 = (5 * doy + 2) / 153;
    proof {
        lemma_month_of(doy);
    }
    let d: u32 = (doy - (153 * mp + 2) / 5 + 1) as u32;
    let m: u32 = (if mp < 10 {
        mp + 3
    } else {
        mp - 9
    }) as u32;
    let year: u32 = (y + if m <= 2 {
        1
    } else {
        0
    }) as u32;
    proof {
        assert(is_leap(yoe + 1) == ((yoe + 1) % 4 == 0 && ((yoe + 1) % 100 != 0 || yoe == 399)));
        lemma_assemble(era as int, yoe as int, doy as int);
        let full = 400 * era + yoe + (if m <= 2 { 1int } else { 0 });
        assert(days_from_civil(full, m as int, d as int) == days);
        lemma_civil_from_days(full, m as int, d as int);
    }
    (year, m, d)
}

} // verus!
