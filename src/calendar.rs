//! The proleptic Gregorian calendar: day numbers, validity of dates, weekdays,
//! and millisecond timestamps.
use vstd::prelude::*;
use vstd::arithmetic::div_mod::{
    lemma_fundamental_div_mod, lemma_fundamental_div_mod_converse, lemma_mod_multiples_vanish,
    lemma_mod_bound,
};

verus! {

pub const SECOND_MS: i64 = 1000;

pub const MINUTE_MS: i64 = 60_000;

pub const HOUR_MS: i64 = 3_600_000;

pub const DAY_MS: i64 = 86_400_000;

pub const WEEK_MS: i64 = 604_800_000;

/// The earliest year that the calendar represents.
pub const MIN_YEAR: i32 = -262143;

/// The latest year that the calendar represents.
pub const MAX_YEAR: i32 = 262142;

/// The day number of January 1 of `MIN_YEAR`.
pub const MIN_DAY: i64 = -95746129;

/// The day number of December 31 of `MAX_YEAR`.
pub const MAX_DAY: i64 = 95745399;

pub open spec fn is_leap(y: int) -> bool {
    (y % 4 == 0 && y % 100 != 0) || y % 400 == 0
}

pub open spec fn month_length(y: int, m: int) -> int {
    if m == 2 {
        if is_leap(y) {
            29
        } else {
            28
        }
    } else if m == 4 || m == 6 || m == 9 || m == 11 {
        30
    } else {
        31
    }
}

pub open spec fn valid_ymd(y: int, m: int, d: int) -> bool {
    1 <= m <= 12 && 1 <= d <= month_length(y, m)
}

pub open spec fn year_in_range(y: int) -> bool {
    MIN_YEAR <= y <= MAX_YEAR
}

pub open spec fn day_in_range(n: int) -> bool {
    MIN_DAY <= n <= MAX_DAY
}

/// Days of the years before `y`, counting the year 1 as the first.
pub open spec fn days_before_year(y: int) -> int {
    let p = y - 1;
    365 * p + p / 4 - p / 100 + p / 400
}

/// Days of the months of year `y` before month `m`.
pub open spec fn days_before_month(y: int, m: int) -> int {
    let base: int = if m <= 1 {
        0
    } else if m == 2 {
        31
    } else if m == 3 {
        59
    } else if m == 4 {
        90
    } else if m == 5 {
        120
    } else if m == 6 {
        151
    } else if m == 7 {
        181
    } else if m == 8 {
        212
    } else if m == 9 {
        243
    } else if m == 10 {
        273
    } else if m == 11 {
        304
    } else {
        334
    };
    if m > 2 && is_leap(y) {
        base + 1
    } else {
        base
    }
}

/// The number of a day, January 1 of year 1 being day 1 (and December 31
/// of the year before it day 0).
pub open spec fn day_number(y: int, m: int, d: int) -> int {
    days_before_year(y) + days_before_month(y, m) + d
}

/// The year, month and day of a day number: the one valid date that has it.
pub open spec fn civil_from_days(n: int) -> (int, int, int) {
    choose|t: (int, int, int)| valid_ymd(t.0, t.1, t.2) && day_number(t.0, t.1, t.2) == n
}

/// The weekday of a day number: 0 for Monday through 6 for Sunday.
/// January 1 of year 1 was a Monday.
pub open spec fn weekday_of(n: int) -> int {
    (n + 6) % 7
}

/// The first instant of the range of timestamps.
pub open spec fn min_instant() -> int {
    MIN_DAY * DAY_MS
}

/// The last millisecond of the range of timestamps.
pub open spec fn max_instant() -> int {
    (MAX_DAY + 1) * DAY_MS - 1
}

/// Whether `t` lies in the range of timestamps, the end of the last day included.
pub open spec fn instant_in_range(t: int) -> bool {
    min_instant() <= t <= max_instant() + 1
}

/// The day that contains the instant `t`.
pub open spec fn day_of(t: int) -> int {
    t / (DAY_MS as int)
}

/// A moment of naive wall-clock time, in milliseconds from the start of day 0
/// (December 31 of the year before year 1).
#[derive(Clone, Copy, Debug, PartialEq, Eq, PartialOrd, Ord, Hash, Structural)]
pub struct Timestamp {
    pub millis: i64,
}

/// Relies on chrono's `NaiveDate::from_ymd_opt`, which returns `None` exactly for a date
/// that does not exist or whose year lies outside chrono's range, and on
/// `Datelike::num_days_from_ce`, which counts January 1 of year 1 as day 1.
#[verifier::external_body]
fn ymd_to_day_number(y: i32, m: u32, d: u32) -> (r: Option<i32>)
    ensures
        r == (if valid_ymd(y as int, m as int, d as int) && year_in_range(y as int) {
            Some(day_number(y as int, m as int, d as int) as i32)
        } else {
            None::<i32>
        }),
{
    match chrono::NaiveDate::from_ymd_opt(y, m, d) {
        Some(date) => Some(chrono::Datelike::num_days_from_ce(&date)),
        None => None,
    }
}

/// Relies on chrono's `NaiveDate::from_num_days_from_ce_opt` (day 1 is January 1 of
/// year 1; `None` outside chrono's range of dates) and on `Datelike::year`, `month`
/// and `day` of the date it makes.
#[verifier::external_body]
fn day_number_to_ymd(n: i32) -> (r: Option<(i32, u32, u32)>)
    ensures
        match r {
            Some((y, m, d)) => {
                &&& day_in_range(n as int)
                &&& valid_ymd(y as int, m as int, d as int)
                &&& year_in_range(y as int)
                &&& day_number(y as int, m as int, d as int) == n
            },
            None => !day_in_range(n as int),
        },
{
    match chrono::NaiveDate::from_num_days_from_ce_opt(n) {
        Some(date) => Some(
            (
                chrono::Datelike::year(&date),
                chrono::Datelike::month(&date),
                chrono::Datelike::day(&date),
            ),
        ),
        None => None,
    }
}

/// Whether `y` is a leap year.
pub fn is_leap_year(y: i64) -> (r: bool)
    requires
        -1_000_000_000 <= y <= 1_000_000_000,
    ensures
        r == is_leap(y as int),
{
    let k: i64 = y + 4_000_000_000;
    proof {
        lemma_mod_multiples_vanish(1_000_000_000, y as int, 4);
        lemma_mod_multiples_vanish(40_000_000, y as int, 100);
        lemma_mod_multiples_vanish(10_000_000, y as int, 400);
    }
    (k % 4 == 0 && k % 100 != 0) || k % 400 == 0
}

/// The number of days of month `m` of year `y`.
pub fn days_in_month(y: i64, m: u32) -> (r: u32)
    requires
        1 <= m <= 12,
        -1_000_000_000 <= y <= 1_000_000_000,
    ensures
        r == month_length(y as int, m as int),
{
    if m == 2 {
        if is_leap_year(y) {
            29
        } else {
            28
        }
    } else if m == 4 || m == 6 || m == 9 || m == 11 {
        30
    } else {
        31
    }
}

/// Whether year `y`, month `m`, day `d` is a date of the calendar.
pub fn is_valid_date(y: i64, m: u32, d: u32) -> (r: bool)
    requires
        -1_000_000_000 <= y <= 1_000_000_000,
    ensures
        r == valid_ymd(y as int, m as int, d as int),
{
    1 <= m && m <= 12 && 1 <= d && d <= days_in_month(y, m)
}

/// The day number of a date, or `None` where the date does not exist or lies
/// outside the calendar's range.
pub fn date_to_day(y: i64, m: u32, d: u32) -> (r: Option<i64>)
    ensures
        r == (if valid_ymd(y as int, m as int, d as int) && year_in_range(y as int) {
            Some(day_number(y as int, m as int, d as int) as i64)
        } else {
            None::<i64>
        }),
        r matches Some(n) ==> day_in_range(n as int),
{
    if y < MIN_YEAR as i64 || y > MAX_YEAR as i64 {
        return None;
    }
    match ymd_to_day_number(y as i32, m, d) {
        Some(n) => {
            proof {
                lemma_day_number_in_range(y as int, m as int, d as int);
            }
            Some(n as i64)
        },
        None => None,
    }
}

/// Year, month and day of a day number, or `None` outside the calendar's range.
pub fn day_to_date(n: i64) -> (r: Option<(i32, u32, u32)>)
    ensures
        match r {
            Some((y, m, d)) => {
                &&& day_in_range(n as int)
                &&& civil_from_days(n as int) == (y as int, m as int, d as int)
                &&& valid_ymd(y as int, m as int, d as int)
                &&& year_in_range(y as int)
                &&& day_number(y as int, m as int, d as int) == n
            },
            None => !day_in_range(n as int),
        },
{
    if n < MIN_DAY || n > MAX_DAY {
        return None;
    }
    let r = day_number_to_ymd(n as i32);
    if let Some((y, m, d)) = r {
        proof {
            let t = (y as int, m as int, d as int);
            assert(valid_ymd(t.0, t.1, t.2) && day_number(t.0, t.1, t.2) == n);
            let c = civil_from_days(n as int);
            lemma_day_number_injective(c.0, c.1, c.2, t.0, t.1, t.2);
        }
    }
    r
}

/// The weekday of a day number, 0 for Monday through 6 for Sunday.
pub fn weekday_of_day(n: i64) -> (r: i64)
    requires
        -1_000_000_000 <= n <= 1_000_000_000,
    ensures
        r == weekday_of(n as int),
        0 <= r < 7,
{
    let k: i64 = n + 6 + 7_000_000_000;
    proof {
        lemma_mod_multiples_vanish(1_000_000_000, n + 6, 7);
    }
    k % 7
}

/// The floor of `x / d`, for a positive `d`.
pub fn floor_div(x: i64, d: i64) -> (q: i64)
    requires
        0 < d <= 4_294_967_295,
        -1_000_000_000 * d <= x <= 4_000_000_000_000_000_000,
    ensures
        q == x as int / d as int,
{
    let k: i64 = 1_000_000_000;
    let y: i64 = x + k * d;
    let q0: i64 = y / d;
    proof {
        lemma_fundamental_div_mod(y as int, d as int);
        lemma_mod_bound(y as int, d as int);
        assert(x == (q0 - k) * d + y % d) by (nonlinear_arith)
            requires
                y == x + k * d,
                y == d * (y / d) + y % d,
                q0 == y / d,
        ;
        lemma_fundamental_div_mod_converse(x as int, d as int, q0 - k, y as int % d as int);
    }
    q0 - k
}

/// A date in the calendar's range has a day number in range.
pub proof fn lemma_day_number_in_range(y: int, m: int, d: int)
    requires
        valid_ymd(y, m, d),
        year_in_range(y),
    ensures
        day_in_range(day_number(y, m, d)),
{
    lemma_days_before_year_monotonic(MIN_YEAR as int, y);
    lemma_days_before_year_monotonic(y + 1, MAX_YEAR as int + 1);
    assert(days_before_year(MIN_YEAR as int) + 1 == MIN_DAY);
    assert(days_before_year(MAX_YEAR as int + 1) == MAX_DAY);
    assert(days_before_year(y + 1) >= days_before_year(y) + days_before_month(y, m) + d) by {
        lemma_year_length(y);
    }
}

proof fn lemma_next_div(p: int, d: int)
    requires
        d > 0,
    ensures
        (p + 1) / d - p / d == (if (p + 1) % d == 0 {
            1int
        } else {
            0int
        }),
{
    let q = p / d;
    let r = p % d;
    lemma_fundamental_div_mod(p, d);
    lemma_mod_bound(p, d);
    if r + 1 == d {
        assert(p + 1 == (q + 1) * d + 0) by (nonlinear_arith)
            requires
                p == d * q + r,
                r + 1 == d,
        ;
        lemma_fundamental_div_mod_converse(p + 1, d, q + 1, 0);
    } else {
        assert(p + 1 == q * d + (r + 1)) by (nonlinear_arith)
            requires
                p == d * q + r,
        ;
        lemma_fundamental_div_mod_converse(p + 1, d, q, r + 1);
    }
}

proof fn lemma_year_length(y: int)
    ensures
        days_before_year(y + 1) - days_before_year(y) == (if is_leap(y) {
            366int
        } else {
            365int
        }),
{
    let p = y - 1;
    lemma_next_div(p, 4);
    lemma_next_div(p, 100);
    lemma_next_div(p, 400);
    lemma_mod_mod_divisor(y);
}

proof fn lemma_mod_mod_divisor(y: int)
    ensures
        y % 400 == 0 ==> y % 100 == 0,
        y % 100 == 0 ==> y % 4 == 0,
{
    if y % 400 == 0 {
        lemma_fundamental_div_mod(y, 400);
        lemma_fundamental_div_mod_converse(y, 100, 4 * (y / 400), 0);
    }
    if y % 100 == 0 {
        lemma_fundamental_div_mod(y, 100);
        lemma_fundamental_div_mod_converse(y, 4, 25 * (y / 100), 0);
    }
}

pub proof fn lemma_days_before_year_monotonic(a: int, b: int)
    requires
        a <= b,
    ensures
        days_before_year(a) <= days_before_year(b),
    decreases b - a,
{
    if a < b {
        lemma_days_before_year_monotonic(a, b - 1);
        lemma_year_length(b - 1);
    }
}


impl Timestamp {
    /// The instant at hour `h`, minute `mi`, second `s` of year `y`, month `m`,
    /// day `d`, or `None` where that is no date and time of the calendar.
    pub fn from_ymd_hms(y: i32, m: u32, d: u32, h: u32, mi: u32, s: u32) -> (r: Option<Timestamp>)
        ensures
            r == (if valid_ymd(y as int, m as int, d as int) && year_in_range(y as int) && h < 24
                && mi < 60 && s < 60 {
                Some(
                    Timestamp {
                        millis: (day_number(y as int, m as int, d as int) * DAY_MS + h * HOUR_MS
                            + mi * MINUTE_MS + s * SECOND_MS) as i64,
                    },
                )
            } else {
                None::<Timestamp>
            }),
    {
        if h >= 24 || mi >= 60 || s >= 60 || y < MIN_YEAR || y > MAX_YEAR {
            return None;
        }
        if !is_valid_date(y as i64, m, d) {
            return None;
        }
        match date_to_day(y as i64, m, d) {
            None => None,
            Some(n) => Some(
                Timestamp {
                    millis: n * DAY_MS + h as i64 * HOUR_MS + mi as i64 * MINUTE_MS + s as i64
                        * SECOND_MS,
                },
            ),
        }
    }

    /// The first instant of a date.
    pub fn from_ymd(y: i32, m: u32, d: u32) -> (r: Option<Timestamp>)
        ensures
            r == (if valid_ymd(y as int, m as int, d as int) && year_in_range(y as int) {
                Some(Timestamp { millis: (day_number(y as int, m as int, d as int) * DAY_MS) as i64 })
            } else {
                None::<Timestamp>
            }),
    {
        Timestamp::from_ymd_hms(y, m, d, 0, 0, 0)
    }

    /// This instant moved by `ms` milliseconds, or `None` where that leaves the
    /// calendar's range.
    pub fn plus_millis(self, ms: i64) -> (r: Option<Timestamp>)
        ensures
            r == (if instant_in_range(self.millis + ms) {
                Some(Timestamp { millis: (self.millis + ms) as i64 })
            } else {
                None::<Timestamp>
            }),
    {
        let lo: i128 = (MIN_DAY * DAY_MS) as i128;
        let hi: i128 = ((MAX_DAY + 1) * DAY_MS) as i128;
        let t: i128 = self.millis as i128 + ms as i128;
        if t < lo || t > hi {
            None
        } else {
            Some(Timestamp { millis: t as i64 })
        }
    }

    /// The first instant of the calendar's range.
    pub fn first() -> (r: Timestamp)
        ensures
            r.millis == min_instant(),
    {
        Timestamp { millis: MIN_DAY * DAY_MS }
    }

    /// The last millisecond of the calendar's range.
    pub fn last() -> (r: Timestamp)
        ensures
            r.millis == max_instant(),
    {
        Timestamp { millis: (MAX_DAY + 1) * DAY_MS - 1 }
    }
}


/// The days of the months before month `m`, and month `m` itself, fit in the year.
proof fn lemma_month_in_year(y: int, m: int)
    requires
        1 <= m <= 12,
    ensures
        days_before_month(y, m) + month_length(y, m) <= days_before_year(y + 1) - days_before_year(y),
        m < 12 ==> days_before_month(y, m + 1) == days_before_month(y, m) + month_length(y, m),
{
    lemma_year_length(y);
}

/// Days before month `a` are no more than days before a later month `b`.
pub proof fn lemma_days_before_month_monotonic(y: int, a: int, b: int)
    requires
        1 <= a <= b <= 12,
    ensures
        days_before_month(y, a) + (if a < b {
            month_length(y, a)
        } else {
            0
        }) <= days_before_month(y, b),
    decreases b - a,
{
    if a < b {
        lemma_month_in_year(y, a);
        if a + 1 < b {
            lemma_days_before_month_monotonic(y, a + 1, b);
        }
    }
}

/// A valid date has a day number within its year.
pub proof fn lemma_day_in_year(y: int, m: int, d: int)
    requires
        valid_ymd(y, m, d),
    ensures
        days_before_year(y) < day_number(y, m, d) <= days_before_year(y + 1),
{
    lemma_month_in_year(y, m);
}

/// Two valid dates with the same day number are the same date.
pub proof fn lemma_day_number_injective(y1: int, m1: int, d1: int, y2: int, m2: int, d2: int)
    requires
        valid_ymd(y1, m1, d1),
        valid_ymd(y2, m2, d2),
        day_number(y1, m1, d1) == day_number(y2, m2, d2),
    ensures
        y1 == y2 && m1 == m2 && d1 == d2,
{
    lemma_day_in_year(y1, m1, d1);
    lemma_day_in_year(y2, m2, d2);
    if y1 < y2 {
        lemma_days_before_year_monotonic(y1 + 1, y2);
    } else if y2 < y1 {
        lemma_days_before_year_monotonic(y2 + 1, y1);
    } else {
        if m1 < m2 {
            lemma_days_before_month_monotonic(y1, m1, m2);
        } else if m2 < m1 {
            lemma_days_before_month_monotonic(y1, m2, m1);
        }
    }
}

} // verus!
