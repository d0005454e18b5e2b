use vstd::prelude::*;

verus! {

/// Quotient of a division that rounds toward zero, as Rust's `/` does.
pub open spec fn trunc_div(a: int, b: int) -> int {
    if a >= 0 {
        a / b
    } else {
        -((-a) / b)
    }
}

/// Remainder of a division that rounds toward zero, as Rust's `%` does.
pub open spec fn trunc_rem(a: int, b: int) -> int {
    if a >= 0 {
        a % b
    } else {
        -((-a) % b)
    }
}

/// Day of the week of a proleptic Gregorian date by Zeller's congruence,
/// with 0 for Sunday through 6 for Saturday. January and February count as
/// months 13 and 14 of the previous year. Nothing checks the ranges of the
/// month and the day: out-of-range values give a number all the same.
pub open spec fn weekday_of(year: int, month: int, day: int) -> int {
    let y = if month < 3 { year - 1 } else { year };
    let m = if month < 3 { month + 12 } else { month };
    let k = trunc_rem(y, 100);
    let j = trunc_div(y, 100);
    let f = day + trunc_div(13 * (m + 1), 5) + k + trunc_div(k, 4) + trunc_div(j, 4) + 5 * j;
    trunc_rem(f + 6, 7)
}

fn div_toward_zero(a: i64, b: i64) -> (r: i64)
    requires
        b > 0,
        a > i64::MIN,
    ensures
        r == trunc_div(a as int, b as int),
{
    if a >= 0 {
        a / b
    } else {
        -((-a) / b)
    }
}

fn rem_toward_zero(a: i64, b: i64) -> (r: i64)
    requires
        b > 0,
        a > i64::MIN,
    ensures
        r == trunc_rem(a as int, b as int),
{
    if a >= 0 {
        a % b
    } else {
        -((-a) % b)
    }
}

/// The day of the week of `year-month-day`, 0 for Sunday through 6 for
/// Saturday, computed without any check of the ranges of its arguments.
pub fn date2weekday(year: i32, month: i32, day: i32) -> (r: i32)
    ensures
        r as int == weekday_of(year as int, month as int, day as int),
        0 <= month && 0 <= day && (year > 0 || (year == 0 && month >= 3)) ==> 0 <= r < 7,
{
    let mut y: i64 = year as i64;
    let mut m: i64 = month as i64;
    if m < 3 {
        m = m + 12;
        y = y - 1;
    }
    let k = rem_toward_zero(y, 100);
    let j = div_toward_zero(y, 100);
    assert(-100 < k < 100 && -30000000 < j < 30000000) by (nonlinear_arith)
        requires
            k == trunc_rem(y as int, 100),
            j == trunc_div(y as int, 100),
            i32::MIN - 1 <= y <= i32::MAX,
    ;
    let f = day as i64 + div_toward_zero(13 * (m + 1), 5) + k + div_toward_zero(k, 4)
        + div_toward_zero(j, 4) + 5 * j;
    assert(0 <= month && 0 <= day && (year > 0 || (year == 0 && month >= 3)) ==> f >= 0) by (
    nonlinear_arith)
        requires
            k == trunc_rem(y as int, 100),
            j == trunc_div(y as int, 100),
            y >= 0 ==> k >= 0 && j >= 0,
            m >= 0 ==> 13 * (m + 1) >= 0,
            f == day + trunc_div(13 * (m + 1), 5) + k + trunc_div(k as int, 4) + trunc_div(
                j as int,
                4,
            ) + 5 * j,
            0 <= month && 0 <= day && (year > 0 || (year == 0 && month >= 3)) ==> y >= 0 && m
                >= 0,
    ;
    let r = rem_toward_zero(f + 6, 7);
    r as i32
}

} // verus!
