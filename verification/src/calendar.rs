use vstd::prelude::*;
use crate::log::CommitTime;
use crate::text::{
    decimal, push_char, push_signed_zero_padded, push_zero_padded, signed_zero_padded, zero_padded,
};

verus! {

// The proleptic Gregorian calendar, counted in days from 1970-01-01.

/// Leap years: every fourth year, except centuries not divisible by 400.
pub open spec fn is_leap_year(year: int) -> bool {
    (year % 4 == 0 && year % 100 != 0) || year % 400 == 0
}

/// The number of days in `year`.
pub open spec fn year_length(year: int) -> int {
    if is_leap_year(year) { 366 } else { 365 }
}

/// The number of days in `month` (1 to 12) of `year`.
pub open spec fn month_length(year: int, month: int) -> int {
    if month == 2 {
        if is_leap_year(year) { 29 } else { 28 }
    } else if month == 4 || month == 6 || month == 9 || month == 11 {
        30
    } else {
        31
    }
}

/// Days of `year` before the first of `month`.
pub open spec fn days_before_month(year: int, month: int) -> int
    decreases month,
{
    if month <= 1 {
        0
    } else {
        days_before_month(year, month - 1) + month_length(year, month - 1)
    }
}

/// Days from 1970-01-01 to the first of January of `year` (negative before 1970).
pub open spec fn days_before_year(year: int) -> int {
    let p = year - 1;
    365 * p + p / 4 - p / 100 + p / 400 - 719162
}

/// `year`-`month`-`day` names a day of the calendar.
pub open spec fn is_calendar_date(year: int, month: int, day: int) -> bool {
    1 <= month <= 12 && 1 <= day <= month_length(year, month)
}

/// The number of days from 1970-01-01 to the given date.
pub open spec fn day_number(year: int, month: int, day: int) -> int {
    days_before_year(year) + days_before_month(year, month) + day - 1
}

/// The calendar date of the day `days` days after 1970-01-01.
pub open spec fn date_of_day(days: int) -> (int, int, int) {
    choose|year: int, month: int, day: int|
        is_calendar_date(year, month, day) && day_number(year, month, day) == days
}

proof fn lemma_floor_step(x: int, k: int)
    requires
        k > 0,
    ensures
        x / k - (x - 1) / k == (if x % k == 0 { 1int } else { 0int }),
{
    vstd::arithmetic::div_mod::lemma_fundamental_div_mod(x, k);
    let q = x / k;
    let r = x % k;
    if r == 0 {
        assert(x - 1 == (q - 1) * k + (k - 1)) by (nonlinear_arith)
            requires
                x == k * q + r,
                r == 0,
        ;
        vstd::arithmetic::div_mod::lemma_fundamental_div_mod_converse(x - 1, k, q - 1, k - 1);
    } else {
        assert(x - 1 == q * k + (r - 1)) by (nonlinear_arith)
            requires
                x == k * q + r,
        ;
        vstd::arithmetic::div_mod::lemma_fundamental_div_mod_converse(x - 1, k, q, r - 1);
    }
}

/// Consecutive years are as far apart as the first of them is long.
#[verifier::spinoff_prover]
pub proof fn lemma_next_year(year: int)
    ensures
        days_before_year(year + 1) == days_before_year(year) + year_length(year),
{
    lemma_floor_step(year, 4);
    lemma_floor_step(year, 100);
    lemma_floor_step(year, 400);
}

/// A year begins no earlier than any year before it.
proof fn lemma_years_ordered(a: int, b: int)
    requires
        a <= b,
    ensures
        days_before_year(a) <= days_before_year(b),
    decreases b - a,
{
    if a < b {
        lemma_years_ordered(a, b - 1);
        lemma_next_year(b - 1);
    }
}

/// The months of a year fill it: December ends where the next year begins.
proof fn lemma_months_fill_year(year: int)
    ensures
        days_before_month(year, 12) + 31 == year_length(year),
        forall|m: int| 1 <= m <= 12 ==> days_before_month(year, m) + month_length(year, m) <= year_length(year),
        forall|m: int| 1 <= m <= 12 ==> 0 <= #[trigger] days_before_month(year, m),
{
    reveal_with_fuel(days_before_month, 13);
}

/// A later month of the same year starts after an earlier one ends.
proof fn lemma_months_ordered(year: int, a: int, b: int)
    requires
        1 <= a < b <= 12,
    ensures
        days_before_month(year, a) + month_length(year, a) <= days_before_month(year, b),
    decreases b - a,
{
    if a + 1 < b {
        lemma_months_ordered(year, a, b - 1);
    }
}

/// Two calendar dates with the same day number are the same date.
pub proof fn lemma_day_number_unique(y1: int, m1: int, d1: int, y2: int, m2: int, d2: int)
    requires
        is_calendar_date(y1, m1, d1),
        is_calendar_date(y2, m2, d2),
        day_number(y1, m1, d1) == day_number(y2, m2, d2),
    ensures
        y1 == y2 && m1 == m2 && d1 == d2,
{
    lemma_months_fill_year(y1);
    lemma_months_fill_year(y2);
    if y1 < y2 {
        lemma_next_year(y1);
        lemma_years_ordered(y1 + 1, y2);
        assert(false);
    } else if y2 < y1 {
        lemma_next_year(y2);
        lemma_years_ordered(y2 + 1, y1);
        assert(false);
    } else if m1 < m2 {
        lemma_months_ordered(y1, m1, m2);
    } else if m2 < m1 {
        lemma_months_ordered(y1, m2, m1);
    }
}

/// Every calendar date is the date of its own day number.
pub proof fn lemma_date_of_day_number(year: int, month: int, day: int)
    requires
        is_calendar_date(year, month, day),
    ensures
        date_of_day(day_number(year, month, day)) == (year, month, day),
{
    let n = day_number(year, month, day);
    assert(is_calendar_date(year, month, day) && day_number(year, month, day) == n);
    let (y, m, d) = date_of_day(n);
    lemma_day_number_unique(y, m, d, year, month, day);
}

/// Leap years repeat every 400 years.
#[verifier::spinoff_prover]
proof fn lemma_leap_years_repeat(cycles: int, years: int)
    ensures
        is_leap_year(1 + 400 * cycles + years) == is_leap_year(years + 1),
{
    let y = 1 + 400 * cycles + years;
    assert(y % 4 == (years + 1) % 4);
    assert(y % 100 == (years + 1) % 100);
    assert(y % 400 == (years + 1) % 400);
}

/// Euclidean quotient and remainder of `x` by a positive `d`.
fn floor_div_mod(x: i128, d: i128) -> (qr: (i128, i128))
    requires
        1 <= d <= 1_000_000,
        -0x1_0000_0000_0000_0000_0000_0000 <= x <= 0x1_0000_0000_0000_0000_0000_0000,
    ensures
        qr.0 == x / d,
        qr.1 == x % d,
        x == qr.0 * d + qr.1,
        0 <= qr.1 < d,
{
    let shift: i128 = 0x2_0000_0000_0000_0000_0000_0000;
    assert(shift * d <= 0x2_0000_0000_0000_0000_0000_0000 * 1_000_000) by (nonlinear_arith)
        requires
            1 <= d <= 1_000_000,
            shift == 0x2_0000_0000_0000_0000_0000_0000,
    ;
    assert(shift * d >= shift) by (nonlinear_arith)
        requires
            1 <= d,
            shift > 0,
    ;
    let u: u128 = (x + shift * d) as u128;
    let du: u128 = d as u128;
    let qu: u128 = u / du;
    let ru: u128 = u % du;
    proof {
        vstd::arithmetic::div_mod::lemma_fundamental_div_mod(u as int, du as int);
        assert(qu <= u) by (nonlinear_arith)
            requires
                u == du * qu + ru,
                du >= 1,
                ru >= 0,
                qu >= 0,
        ;
        assert(x == (qu - shift) * d + ru) by (nonlinear_arith)
            requires
                u == du * qu + ru,
                u == x + shift * d,
                du == d,
        ;
        vstd::arithmetic::div_mod::lemma_fundamental_div_mod_converse(x as int, d as int, qu - shift, ru as int);
    }
    ((qu as i128) - shift, ru as i128)
}

fn leap_year(year: u64) -> (leap: bool)
    ensures
        leap == is_leap_year(year as int),
{
    (year % 4 == 0 && year % 100 != 0) || year % 400 == 0
}

/// The length of the year `years` after the first year of a 400-year cycle.
fn cycle_year_length(years: u64) -> (days: u64)
    requires
        years < 1000,
    ensures
        days == year_length(years + 1),
{
    if leap_year(years + 1) { 366 } else { 365 }
}

fn month_days(leap: bool, month: u64) -> (days: u64)
    ensures
        forall|year: int| is_leap_year(year) == leap ==> days == month_length(year, month as int),
{
    if month == 2 {
        if leap { 29 } else { 28 }
    } else if month == 4 || month == 6 || month == 9 || month == 11 {
        30
    } else {
        31
    }
}

/// The calendar date (year, month, day) of the day `days` days after 1970-01-01.
fn civil_from_days(days: i64) -> (date: (i64, i64, i64))
    ensures
        (date.0 as int, date.1 as int, date.2 as int) == date_of_day(days as int),
        is_calendar_date(date.0 as int, date.1 as int, date.2 as int),
        day_number(date.0 as int, date.1 as int, date.2 as int) == days,
{
    // Days since 0001-01-01, split into whole 400-year cycles of 146097 days.
    let since_year_one: i128 = days as i128 + 719162;
    let (cycles, within) = floor_div_mod(since_year_one, 146097);
    let first: i128 = 1 + 400 * cycles;
    proof {
        assert((400 * cycles) / 4 == 100 * cycles);
        assert((400 * cycles) / 100 == 4 * cycles);
        assert((400 * cycles) / 400 == cycles);
        assert(days_before_year(first as int) == 146097 * cycles - 719162);
    }
    let mut rest: u64 = within as u64;
    let mut years: u64 = 0;
    while rest >= cycle_year_length(years)
        invariant
            days_before_year(first + years) + rest == days,
            years < 1000,
            365 * years + rest <= within,
            first == 1 + 400 * cycles,
            0 <= within < 146097,
        decreases rest,
    {
        proof {
            lemma_leap_years_repeat(cycles as int, years as int);
            lemma_next_year(first + years);
        }
        rest = rest - cycle_year_length(years);
        years = years + 1;
    }
    let leap = leap_year(years + 1);
    let ghost year = first + years;
    proof {
        lemma_leap_years_repeat(cycles as int, years as int);
        lemma_months_fill_year(year);
    }
    let ghost in_year = rest;
    let mut month: u64 = 1;
    while rest >= month_days(leap, month)
        invariant
            1 <= month <= 12,
            days_before_month(year, month as int) + rest == in_year,
            in_year < year_length(year),
            is_leap_year(year) == leap,
            days_before_month(year, 12) + 31 == year_length(year),
        decreases 12 - month,
    {
        rest = rest - month_days(leap, month);
        month = month + 1;
    }
    let date = ((first + years as i128) as i64, month as i64, (rest + 1) as i64);
    proof {
        assert(is_calendar_date(date.0 as int, date.1 as int, date.2 as int));
        lemma_date_of_day_number(date.0 as int, date.1 as int, date.2 as int);
    }
    date
}

/// `n` written with at least two digits.
pub open spec fn two_digits(n: int) -> Seq<char> {
    zero_padded(decimal(n as nat), 2)
}

/// A commit time as `YYYY-MM-DD HH:MM ±HHMM`: the local date and time
/// `offset_minutes` after `seconds` since the epoch, then the offset.
pub open spec fn absolute_time_text(seconds: int, offset_minutes: int) -> Seq<char> {
    let local = seconds + offset_minutes * 60;
    let date = date_of_day(local / 86400);
    let of_day = local % 86400;
    let magnitude = if offset_minutes < 0 { -offset_minutes } else { offset_minutes };
    signed_zero_padded(date.0, 4) + seq!['-'] + two_digits(date.1) + seq!['-'] + two_digits(date.2)
        + seq![' '] + two_digits(of_day / 3600) + seq![':'] + two_digits(of_day % 3600 / 60)
        + seq![' '] + seq![if offset_minutes < 0 { '-' } else { '+' }] + two_digits(magnitude / 60)
        + two_digits(magnitude % 60)
}

/// Format a commit timestamp as `YYYY-MM-DD HH:MM ±HHMM`, applying the commit's
/// own recorded timezone offset.
#[verifier::spinoff_prover]
pub fn format_absolute_time(time: &CommitTime) -> (text: String)
    requires
        i64::MIN <= time.seconds + time.offset_minutes * 60 <= i64::MAX,
    ensures
        text@ == absolute_time_text(time.seconds as int, time.offset_minutes as int),
{
    let offset = time.offset_minutes as i64;
    let local = time.seconds + offset * 60;
    let (days, of_day) = floor_div_mod(local as i128, 86400);
    let (year, month, day) = civil_from_days(days as i64);
    let of_day = of_day as u64;
    let magnitude: u64 = if offset < 0 { (-offset) as u64 } else { offset as u64 };
    let mut text = String::new();
    push_signed_zero_padded(&mut text, year, 4);
    push_char(&mut text, '-');
    push_zero_padded(&mut text, month as u64, 2);
    push_char(&mut text, '-');
    push_zero_padded(&mut text, day as u64, 2);
    push_char(&mut text, ' ');
    push_zero_padded(&mut text, of_day / 3600, 2);
    push_char(&mut text, ':');
    push_zero_padded(&mut text, of_day % 3600 / 60, 2);
    push_char(&mut text, ' ');
    push_char(&mut text, if offset < 0 { '-' } else { '+' });
    push_zero_padded(&mut text, magnitude / 60, 2);
    push_zero_padded(&mut text, magnitude % 60, 2);
    assert(text@ =~= absolute_time_text(time.seconds as int, time.offset_minutes as int));
    text
}

} // verus!
