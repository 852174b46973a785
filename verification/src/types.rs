//! Core types: market themes and the continuity state of a simulation.

use vstd::prelude::*;

verus! {

/// High-level market behaviours from which a scenario is composed.
#[derive(Debug, Clone, Copy, PartialEq, Eq, Hash, Structural)]
pub enum MarketTheme {
    /// Low-to-medium volatility with a steady positive drift.
    Bullish,
    /// Medium volatility with a steady negative drift.
    Bearish,
    /// Low volatility with zero trend.
    Sideways,
    /// A sharp, high-volatility drop followed by a rapid recovery (V shape).
    FlashCrash,
    /// A sell-off, a stagnant bottom and a gradual recovery (U shape).
    Correction,
}

/// Continuity state carried from one generated segment to the next.
///
/// The last price is carried as the bit pattern of its IEEE-754 `f64` value:
/// the library hands it through unchanged and never computes with it.
pub struct MarketState {
    /// Bit pattern of the last traded price in absolute dollars.
    pub last_price_bits: u64,
    /// The last exchange timestamp in milliseconds.
    pub last_timestamp_ms: i64,
    /// The root seed of the whole simulation.
    pub base_seed: u64,
    /// Number of raw segments generated so far; used to derive sub-seeds.
    pub segment_count: u64,
}

/// Milliseconds in one day.
pub const MILLIS_PER_DAY: i64 = 86_400_000;

/// Whether `y` is a leap year of the proleptic Gregorian calendar.
pub open spec fn is_leap_year(y: int) -> bool {
    (y % 4 == 0 && y % 100 != 0) || y % 400 == 0
}

/// Days in year `y`.
pub open spec fn days_in_year(y: int) -> int {
    if is_leap_year(y) {
        366
    } else {
        365
    }
}

/// Days in month `m` (1 to 12) of year `y`.
pub open spec fn days_in_month(y: int, m: int) -> int {
    if m == 2 {
        if is_leap_year(y) {
            29
        } else {
            28
        }
    } else if m == 4 || m == 6 || m == 9 || m == 11 {
        30
    } else if 1 <= m <= 12 {
        31
    } else {
        0
    }
}

/// Days from 1970-01-01 to the first day of year `y` (negative before 1970).
pub open spec fn days_before_year(y: int) -> int
    decreases (if y >= 1970 { y - 1970 } else { 1970 - y }),
{
    if y == 1970 {
        0
    } else if y > 1970 {
        days_before_year(y - 1) + days_in_year(y - 1)
    } else {
        days_before_year(y + 1) - days_in_year(y)
    }
}

/// Days from the first of January of year `y` to the first day of month `m`.
pub open spec fn days_before_month(y: int, m: int) -> int
    decreases m,
{
    if m <= 1 {
        0
    } else {
        days_before_month(y, m - 1) + days_in_month(y, m - 1)
    }
}

/// The lengths of the months follow the Gregorian calendar: January has 31 days,
/// February 28 (29 in a leap year), and from March on the first of each month
/// falls `(153 * (m - 3) + 2) / 5` days after the first of March, the closed form
/// of the month lengths 31, 30, 31, 30, 31, 31, 30, 31, 30, 31. Every month has
/// 28 to 31 days, and a year's months add up to the year's length.
pub proof fn lemma_gregorian_months(y: int, m: int)
    requires
        3 <= m <= 12,
    ensures
        days_before_month(y, 1) == 0,
        days_before_month(y, 2) == 31,
        days_before_month(y, 3) == 59 + (if is_leap_year(y) { 1int } else { 0int }),
        days_before_month(y, m) == days_before_month(y, 3) + (153 * (m - 3) + 2) / 5,
        days_before_month(y, 13) == days_in_year(y),
        28 <= days_in_month(y, m - 1) <= 31,
{
    reveal_with_fuel(days_before_month, 13);
}

/// The first days of consecutive months lie one month apart: 31 days after
/// January, March, May, July, August and October, 30 days after April, June,
/// September and November, and 28 days after February (29 in a leap year).
pub proof fn lemma_month_start_gap(y: int, m: int)
    requires
        1 <= m <= 11,
    ensures
        date_millis(y, m + 1, 1) - date_millis(y, m, 1) == MILLIS_PER_DAY * (if m == 2 {
            if is_leap_year(y) {
                29int
            } else {
                28int
            }
        } else if m == 4 || m == 6 || m == 9 || m == 11 {
            30int
        } else {
            31int
        }),
{
    assert(days_before_month(y, m + 1) == days_before_month(y, m) + days_in_month(y, m));
}

/// Whether year, month and day name a day of the calendar.
pub open spec fn valid_date(y: int, m: int, d: int) -> bool {
    1 <= m <= 12 && 1 <= d <= days_in_month(y, m)
}

/// Days from 1970-01-01 to the given date.
pub open spec fn days_from_epoch(y: int, m: int, d: int) -> int {
    days_before_year(y) + days_before_month(y, m) + d - 1
}

/// Milliseconds from the Unix epoch to midnight (UTC) at the start of the given date.
pub open spec fn date_millis(y: int, m: int, d: int) -> int {
    days_from_epoch(y, m, d) * MILLIS_PER_DAY
}

#[verifier::spinoff_prover]
fn leap_year(y: i64) -> (b: bool)
    ensures
        b == is_leap_year(y as int),
{
    let y4 = y % 4;
    let y100 = y % 100;
    let y400 = y % 400;
    (y4 == 0 && y100 != 0) || y400 == 0
}

fn year_days(y: i64) -> (d: i64)
    ensures
        d == days_in_year(y as int),
{
    if leap_year(y) {
        366
    } else {
        365
    }
}

fn month_days(y: i64, m: i64) -> (d: i64)
    ensures
        d == days_in_month(y as int, m as int),
{
    if m == 2 {
        if leap_year(y) {
            29
        } else {
            28
        }
    } else if m == 4 || m == 6 || m == 9 || m == 11 {
        30
    } else if 1 <= m && m <= 12 {
        31
    } else {
        0
    }
}

/// Days from 1970-01-01 to the first day of `year`.
fn year_start_days(year: i64) -> (days: i64)
    requires
        -0x8000_0000 <= year < 0x8000_0000,
    ensures
        days == days_before_year(year as int),
        -0x1_0000_0000 * 366 <= days <= 0x1_0000_0000 * 366,
{
    let mut days: i64 = 0;
    let mut y: i64 = 1970;
    if year >= 1970 {
        while y < year
            invariant
                1970 <= y <= year,
                year < 0x8000_0000,
                days == days_before_year(y as int),
                365 * (y - 1970) <= days <= 366 * (y - 1970),
            decreases year - y,
        {
            days = days + year_days(y);
            y = y + 1;
        }
    } else {
        while y > year
            invariant
                year <= y <= 1970,
                -0x8000_0000 <= year,
                days == days_before_year(y as int),
                -366 * (1970 - y) <= days <= -365 * (1970 - y),
            decreases y - year,
        {
            y = y - 1;
            days = days - year_days(y);
        }
    }
    days
}

impl MarketState {
    /// A fresh state at the start of a simulation.
    pub fn new(initial_price_bits: u64, start_timestamp_ms: i64, base_seed: u64) -> (s: Self)
        ensures
            s.last_price_bits == initial_price_bits,
            s.last_timestamp_ms == start_timestamp_ms,
            s.base_seed == base_seed,
            s.segment_count == 0,
    {
        MarketState {
            last_price_bits: initial_price_bits,
            last_timestamp_ms: start_timestamp_ms,
            base_seed,
            segment_count: 0,
        }
    }

    /// A fresh state starting at midnight (UTC) of the given calendar date.
    pub fn at_date(year: i32, month: u32, day: u32, initial_price_bits: u64, base_seed: u64) -> (s: Self)
        requires
            valid_date(year as int, month as int, day as int),
            i64::MIN <= date_millis(year as int, month as int, day as int) <= i64::MAX,
        ensures
            s.last_price_bits == initial_price_bits,
            s.last_timestamp_ms == date_millis(year as int, month as int, day as int),
            s.base_seed == base_seed,
            s.segment_count == 0,
    {
        let y = year as i64;
        let mut days = year_start_days(y);
        let mut m: i64 = 1;
        while m < month as i64
            invariant
                1 <= m <= month,
                month <= 12,
                -0x1_0000_0000 * 366 <= days - days_before_month(y as int, m as int) <= 0x1_0000_0000 * 366,
                days == days_before_year(y as int) + days_before_month(y as int, m as int),
                0 <= days_before_month(y as int, m as int) <= 31 * (m - 1),
            decreases month - m,
        {
            days = days + month_days(y, m);
            m = m + 1;
        }
        let total_days = days + (day as i64) - 1;
        MarketState {
            last_price_bits: initial_price_bits,
            last_timestamp_ms: total_days * MILLIS_PER_DAY,
            base_seed,
            segment_count: 0,
        }
    }
}

} // verus!
