//! Proleptic-Gregorian civil dates in UTC: the day number of a date counted
//! from 1970-01-01 and back, and epoch milliseconds broken into calendar
//! components and composed again.

use vstd::prelude::*;

verus! {

/// Milliseconds in a day.
pub const DAY_MS: i64 = 86_400_000;

/// Gregorian leap year.
pub open spec fn is_leap(y: int) -> bool {
    y % 4 == 0 && (y % 100 != 0 || y % 400 == 0)
}

/// Length of month `m` (1-12) of year `y`.
pub open spec fn days_in_month(y: int, m: int) -> int {
    if m == 2 {
        if is_leap(y) { 29 } else { 28 }
    } else if m == 4 || m == 6 || m == 9 || m == 11 {
        30
    } else {
        31
    }
}

/// A calendar date: month 1-12 and a day within that month.
pub open spec fn valid_date(y: int, m: int, d: int) -> bool {
    1 <= m <= 12 && 1 <= d <= days_in_month(y, m)
}

/// Number of leap years in `[0, y)` (negative for `y < 0`: minus those in `[y, 0)`).
pub open spec fn leaps_before(y: int) -> int {
    (y + 3) / 4 - (y + 99) / 100 + (y + 399) / 400
}

/// Days from 0000-01-01 to the first day of year `y`.
pub open spec fn days_before_year(y: int) -> int {
    365 * y + leaps_before(y)
}

/// Days from the first of January of year `y` to the first day of month `m`.
pub open spec fn days_before_month(y: int, m: int) -> int {
    let common: int = if m == 1 {
        0
    } else if m == 2 {
        31
    } else if m == 3 {
        59
    } else if m == 4 {
        90
    } else if m == 5 {
        120
    } else if m == 6 {
        151
    } else if m == 7 {
        181
    } else if m == 8 {
        212
    } else if m == 9 {
        243
    } else if m == 10 {
        273
    } else if m == 11 {
        304
    } else {
        334
    };
    common + if m > 2 && is_leap(y) { 1int } else { 0int }
}

/// Day number of `y-m-d` counted from 1970-01-01 (day 0); `d` may run past
/// the month, counting on linearly.
pub open spec fn epoch_day(y: int, m: int, d: int) -> int {
    days_before_year(y) - days_before_year(1970) + days_before_month(y, m) + d - 1
}

/// Epoch milliseconds of a date and time of day; the month is zero-based and
/// unbounded, carried into the year.
pub open spec fn compose_value(
    year: int,
    month0: int,
    day: int,
    hour: int,
    minute: int,
    second: int,
    milli: int,
) -> int {
    epoch_day(year + month0 / 12, month0 % 12 + 1, day) * DAY_MS + hour * 3_600_000 + minute
        * 60_000 + second * 1_000 + milli
}

/// Day number computed through the March-based era arithmetic.
spec fn march_day(y: int, m: int, d: int) -> int {
    let yy = if m <= 2 { y - 1 } else { y };
    let era = yy / 400;
    let yoe = yy % 400;
    let mp = if m > 2 { m - 3 } else { m + 9 };
    let doy = (153 * mp + 2) / 5 + d - 1;
    let doe = 365 * yoe + yoe / 4 - yoe / 100 + doy;
    146_097 * era + doe - 719_468
}

proof fn lemma_div_shift(c: int, a: int, n: int)
    requires
        n > 0,
    ensures
        (n * c + a) / n == c + a / n,
        (n * c + a) % n == a % n,
{
    vstd::arithmetic::div_mod::lemma_fundamental_div_mod(a, n);
    let q = c + a / n;
    let r = a % n;
    assert(n * c + a == q * n + r) by (nonlinear_arith)
        requires
            a == n * (a / n) + a % n,
            q == c + a / n,
            r == a % n,
    ;
    vstd::arithmetic::div_mod::lemma_fundamental_div_mod_converse(n * c + a, n, q, r);
}

proof fn lemma_leap_period(e: int, k: int)
    ensures
        is_leap(400 * e + k) == is_leap(k),
{
    lemma_div_shift(100 * e, k, 4);
    lemma_div_shift(4 * e, k, 100);
    lemma_div_shift(e, k, 400);
}

proof fn lemma_era_leaps(k: u32)
    requires
        k < 400,
    ensures
        (k + 3) / 4 - (k + 99) / 100 + (k + 399) / 400 + (if k % 4 == 0 && (k % 100 != 0 || k
            % 400 == 0) {
            1int
        } else {
            0int
        }) == k / 4 - k / 100 + 1,
{
    assert((k + 3) / 4 - (k + 99) / 100 + (k + 399) / 400 + (if k % 4 == 0 && (k % 100 != 0 || k
        % 400 == 0) {
        1int
    } else {
        0int
    }) == k / 4 - k / 100 + 1) by (bit_vector)
        requires
            k < 400,
    ;
}

proof fn lemma_era_leaps_next(k: u32)
    requires
        k < 400,
    ensures
        (k + 4) / 4 - (k + 100) / 100 + (k + 400) / 400 == k / 4 - k / 100 + 1,
{
    assert((k + 4) / 4 - (k + 100) / 100 + (k + 400) / 400 == k / 4 - k / 100 + 1)
        by (bit_vector)
        requires
            k < 400,
    ;
}

/// Days before year `400 * e + k` split into whole eras and the rest.
proof fn lemma_days_before_era(e: int, k: int)
    requires
        0 <= k < 400,
    ensures
        days_before_year(400 * e + k) + (if is_leap(k) { 1int } else { 0int }) == 146_097 * e
            + 365 * k + k / 4 - k / 100 + 1,
        days_before_year(400 * e + k + 1) == 146_097 * e + 365 * k + k / 4 - k / 100 + 366,
{
    lemma_div_shift(100 * e, k + 3, 4);
    lemma_div_shift(4 * e, k + 99, 100);
    lemma_div_shift(e, k + 399, 400);
    lemma_div_shift(100 * e, k + 4, 4);
    lemma_div_shift(4 * e, k + 100, 100);
    lemma_div_shift(e, k + 400, 400);
    lemma_era_leaps(k as u32);
    lemma_era_leaps_next(k as u32);
}

/// The era arithmetic counts the same days as the calendar definition.
proof fn lemma_march_day(y: int, m: int, d: int)
    requires
        1 <= m <= 12,
    ensures
        march_day(y, m, d) == epoch_day(y, m, d),
{
    let yy = if m <= 2 { y - 1 } else { y };
    let era = yy / 400;
    let yoe = yy % 400;
    vstd::arithmetic::div_mod::lemma_fundamental_div_mod(yy, 400);
    assert(yy == 400 * era + yoe) by (nonlinear_arith)
        requires
            yy == 400 * (yy / 400) + yy % 400,
            era == yy / 400,
            yoe == yy % 400,
    ;
    lemma_days_before_era(era, yoe);
    lemma_leap_period(era, yoe);
    assert(days_before_year(1970) == 719_528);
}

proof fn lemma_year_of_era(doe: u32)
    requires
        doe <= 146096,
    ensures
        ({
            let yoe = (doe - doe / 1460 + doe / 36524 - doe / 146096) / 365;
            let start = 365 * yoe + yoe / 4 - yoe / 100;
            &&& yoe <= 399
            &&& start <= doe
            &&& doe - start <= 365
            &&& (doe - start == 365 ==> ((yoe + 1) % 4 == 0 && ((yoe + 1) % 100 != 0 || (yoe
                + 1) % 400 == 0)))
        }),
{
    assert({
        let yoe = (doe - doe / 1460 + doe / 36524 - doe / 146096) / 365;
        let start = 365 * yoe + yoe / 4 - yoe / 100;
        &&& yoe <= 399
        &&& start <= doe
        &&& doe - start <= 365
        &&& (doe - start == 365 ==> ((yoe + 1) % 4 == 0 && ((yoe + 1) % 100 != 0 || (yoe + 1)
            % 400 == 0)))
    }) by (bit_vector)
        requires
            doe <= 146096,
    ;
}

proof fn lemma_month_of_year(doy: u32)
    requires
        doy <= 365,
    ensures
        ({
            let mp = (5 * doy + 2) / 153;
            let start = (153 * mp + 2) / 5;
            &&& mp <= 11
            &&& start <= doy
            &&& (mp == 1 || mp == 3 || mp == 6 || mp == 8 ==> doy - start < 30)
            &&& (mp != 1 && mp != 3 && mp != 6 && mp != 8 && mp != 11 ==> doy - start < 31)
            &&& (mp == 11 ==> doy - start < 28 || (doy - start == 28 && doy == 365))
        }),
{
    assert({
        let mp = (5 * doy + 2) / 153;
        let start = (153 * mp + 2) / 5;
        &&& mp <= 11
        &&& start <= doy
        &&& (mp == 1 || mp == 3 || mp == 6 || mp == 8 ==> doy - start < 30)
        &&& (mp != 1 && mp != 3 && mp != 6 && mp != 8 && mp != 11 ==> doy - start < 31)
        &&& (mp == 11 ==> doy - start < 28 || (doy - start == 28 && doy == 365))
    }) by (bit_vector)
        requires
            doy <= 365,
    ;
}

/// Floor division by a positive divisor.
fn floor_div(a: i64, b: i64) -> (q: i64)
    requires
        b > 0,
    ensures
        q == a / b,
        a == q * b + a % b,
        0 <= a % b < b,
{
    proof {
        vstd::arithmetic::div_mod::lemma_fundamental_div_mod(a as int, b as int);
        vstd::arithmetic::div_mod::lemma_div_is_ordered_by_denominator(
            if a >= 0 { a as int } else { -(a as int) },
            1,
            b as int,
        );
        assert(a as int / b as int <= a || a < 0) by (nonlinear_arith)
            requires
                b > 0,
                a == b * (a / b) + a % b,
                0 <= a % b < b,
        ;
        assert(a as int / b as int >= a || a >= 0) by (nonlinear_arith)
            requires
                b > 0,
                a == b * (a / b) + a % b,
                0 <= a % b < b,
        ;
        assert(a == (a / b) * b + a % b) by (nonlinear_arith)
            requires
                a == b * (a / b) + a % b,
        ;
    }
    match a.checked_div_euclid(b) {
        Some(q) => q,
        None => 0,
    }
}

/// Remainder of the floor division by a positive divisor.
fn floor_mod(a: i64, b: i64) -> (r: i64)
    requires
        b > 0,
    ensures
        r == a % b,
{
    match a.checked_rem_euclid(b) {
        Some(r) => r,
        None => 0,
    }
}

/// Day number of `year-month-day` counted from 1970-01-01; the day may run
/// past the month.
pub fn days_from_civil(year: i32, month: i32, day: i32) -> (r: i64)
    requires
        1 <= month <= 12,
    ensures
        r == epoch_day(year as int, month as int, day as int),
{
    let yy: i64 = if month <= 2 { year as i64 - 1 } else { year as i64 };
    let era = floor_div(yy, 400);
    let yoe: i64 = yy - era * 400;
    let mp: i64 = if month > 2 { month as i64 - 3 } else { month as i64 + 9 };
    let doy: i64 = (153 * mp + 2) / 5 + day as i64 - 1;
    let doe: i64 = yoe * 365 + yoe / 4 - yoe / 100 + doy;
    proof {
        lemma_march_day(year as int, month as int, day as int);
    }
    era * 146_097 + doe - 719_468
}

/// The calendar date of a day number counted from 1970-01-01.
pub fn civil_from_days(days: i64) -> (r: (i32, i32, i32))
    requires
        -700_000_000_000 <= days <= 700_000_000_000,
    ensures
        valid_date(r.0 as int, r.1 as int, r.2 as int),
        epoch_day(r.0 as int, r.1 as int, r.2 as int) == days,
{
    let z: i64 = days + 719_468;
    let era = floor_div(z, 146_097);
    let doe: u32 = (z - era * 146_097) as u32;
    proof {
        lemma_year_of_era(doe);
    }
    let yoe: u32 = (doe - doe / 1_460 + doe / 36_524 - doe / 146_096) / 365;
    let doy: u32 = doe - (365 * yoe + yoe / 4 - yoe / 100);
    proof {
        lemma_month_of_year(doy);
    }
    let mp: u32 = (5 * doy + 2) / 153;
    let day: u32 = doy - (153 * mp + 2) / 5 + 1;
    let month: u32 = if mp < 10 { mp + 3 } else { mp - 9 };
    let year: i64 = yoe as i64 + era * 400 + if month <= 2 { 1 } else { 0 };
    proof {
        let y = year as int;
        let m = month as int;
        let d = day as int;
        let yy = if m <= 2 { y - 1 } else { y };
        assert(yy == 400 * era + yoe);
        lemma_div_shift(era as int, yoe as int, 400);
        vstd::arithmetic::div_mod::lemma_small_mod(yoe as nat, 400);
        vstd::arithmetic::div_mod::lemma_basic_div(yoe as int, 400);
        assert(yy / 400 == era);
        assert(yy % 400 == yoe);
        lemma_march_day(y, m, d);
        assert(march_day(y, m, d) == days);
        lemma_leap_period(era as int, yoe as int + 1);
        assert(400 * era + (yoe + 1) == yy + 1);
    }
    (year as i32, month as i32, day as i32)
}

/// UTC calendar components `(year, month 1-12, day, hour, minute, second,
/// milli)` of an epoch-millis instant.
pub fn components(millis: i64) -> (r: (i32, i32, i32, i32, i32, i32, i32))
    ensures
        valid_date(r.0 as int, r.1 as int, r.2 as int),
        epoch_day(r.0 as int, r.1 as int, r.2 as int) == millis as int / DAY_MS as int,
        r.3 == (millis as int % DAY_MS as int) / 3_600_000,
        r.4 == (millis as int % DAY_MS as int) % 3_600_000 / 60_000,
        r.5 == (millis as int % DAY_MS as int) % 60_000 / 1_000,
        r.6 == (millis as int % DAY_MS as int) % 1_000,
{
    let days = floor_div(millis, DAY_MS);
    let day_ms = floor_mod(millis, DAY_MS);
    let (year, month, day) = civil_from_days(days);
    let hour = (day_ms / 3_600_000) as i32;
    let minute = (day_ms % 3_600_000 / 60_000) as i32;
    let second = (day_ms % 60_000 / 1_000) as i32;
    let milli = (day_ms % 1_000) as i32;
    (year, month, day, hour, minute, second, milli)
}

/// Epoch milliseconds of a date and time of day. `month0` is a zero-based,
/// unbounded month offset from January of `year` (-1 is December of the year
/// before); the day and the time fields count on linearly.
pub fn compose(
    year: i32,
    month0: i32,
    day: i32,
    hour: i32,
    minute: i32,
    second: i32,
    milli: i32,
) -> (r: i64)
    requires
        i32::MIN <= year + month0 / 12 <= i32::MAX,
        i64::MIN <= compose_value(
            year as int,
            month0 as int,
            day as int,
            hour as int,
            minute as int,
            second as int,
            milli as int,
        ) <= i64::MAX,
    ensures
        r == compose_value(
            year as int,
            month0 as int,
            day as int,
            hour as int,
            minute as int,
            second as int,
            milli as int,
        ),
{
    let q = floor_div(month0 as i64, 12);
    let y: i32 = (year as i64 + q) as i32;
    let month: i32 = (month0 as i64 - q * 12 + 1) as i32;
    let days = days_from_civil(y, month, day);
    let total: i128 = days as i128 * DAY_MS as i128 + hour as i128 * 3_600_000 + minute as i128
        * 60_000 + second as i128 * 1_000 + milli as i128;
    total as i64
}

/// Two calendar dates with the same day number are the same date: each day
/// number names exactly one date, so `civil_from_days` undoes
/// `days_from_civil` on every valid date and `days_from_civil` undoes
/// `civil_from_days` on every day number.
pub proof fn lemma_civil_roundtrip(y1: int, m1: int, d1: int, y2: int, m2: int, d2: int)
    requires
        valid_date(y1, m1, d1),
        valid_date(y2, m2, d2),
        epoch_day(y1, m1, d1) == epoch_day(y2, m2, d2),
    ensures
        y1 == y2,
        m1 == m2,
        d1 == d2,
{
    let c = days_before_year(1970);
    lemma_year_offset(y1, m1, d1);
    lemma_year_offset(y2, m2, d2);
    if y1 < y2 {
        lemma_days_before_year_mono(y1, y2);
    } else if y2 < y1 {
        lemma_days_before_year_mono(y2, y1);
    }
    assert(y1 == y2);
    lemma_month_offsets(y1, m1, d1, m2, d2);
}

/// A year has 365 days, one more when it is a leap year.
proof fn lemma_days_before_year_step(y: int)
    ensures
        days_before_year(y + 1) == days_before_year(y) + 365 + (if is_leap(y) { 1int } else { 0int }),
{
    let e = y / 400;
    let k = y % 400;
    vstd::arithmetic::div_mod::lemma_fundamental_div_mod(y, 400);
    assert(y == 400 * e + k) by (nonlinear_arith)
        requires
            y == 400 * (y / 400) + y % 400,
            e == y / 400,
            k == y % 400,
    ;
    lemma_days_before_era(e, k);
    lemma_leap_period(e, k);
}

proof fn lemma_days_before_year_mono(a: int, b: int)
    requires
        a < b,
    ensures
        days_before_year(a) + 365 + (if is_leap(a) { 1int } else { 0int }) <= days_before_year(b),
    decreases b - a,
{
    lemma_days_before_year_step(a);
    if a + 1 < b {
        lemma_days_before_year_mono(a + 1, b);
        lemma_days_before_year_step(a + 1);
    }
}

proof fn lemma_year_offset(y: int, m: int, d: int)
    requires
        valid_date(y, m, d),
    ensures
        0 <= days_before_month(y, m) + d - 1 < 365 + (if is_leap(y) { 1int } else { 0int }),
{
}

proof fn lemma_month_offsets(y: int, m1: int, d1: int, m2: int, d2: int)
    requires
        valid_date(y, m1, d1),
        valid_date(y, m2, d2),
        days_before_month(y, m1) + d1 == days_before_month(y, m2) + d2,
    ensures
        m1 == m2,
        d1 == d2,
{
}

} // verus!
