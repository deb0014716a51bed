//! The resolution engine: from an expression tree and a context to an interval.
use vstd::prelude::*;
use vstd::arithmetic::div_mod::{
    lemma_fundamental_div_mod, lemma_mod_bound, lemma_mod_multiples_vanish,
};
use vstd::arithmetic::mul::{lemma_mul_inequality, lemma_mul_is_commutative};
use crate::calendar::{
    civil_from_days, date_to_day, day_in_range, day_number, day_of, day_to_date, days_in_month,
    floor_div, instant_in_range, is_leap, is_leap_year, is_valid_date, max_instant, min_instant,
    month_length, valid_ymd, weekday_of, weekday_of_day, year_in_range, Timestamp, DAY_MS, HOUR_MS,
    MAX_DAY, MAX_YEAR, MINUTE_MS, MIN_DAY, MIN_YEAR, SECOND_MS, WEEK_MS,
};
use crate::expr::{
    month_wf, time_wf, DaySpec, Expr, Moment, Placement, Relation, Span, TimeOfDay, Unit,
    YearSpec, MAX_COUNT,
};

verus! {

/// Why an expression has no interval.
#[derive(Clone, Debug, PartialEq, Eq)]
pub enum TimeError {
    /// The text is no time expression; it is carried along.
    Unparsable(String),
    /// The date does not exist in the calendar.
    InvalidDate { year: i64, month: u32, day: u32 },
    /// The date does not fall on the weekday given with it (0 for Monday).
    WeekdayMismatch { year: i64, month: u32, day: u32, weekday: u32 },
    /// The first moment of a range comes after the second.
    Misordered(Instants),
    /// A pay period was asked for, but none is configured.
    NoPayPeriod,
    /// The interval lies outside the calendar's range.
    OutOfRange,
    /// No present was configured and the system clock could not be read.
    ClockUnavailable,
}

/// The starts of the two moments of a range.
#[derive(Clone, Copy, Debug, PartialEq, Eq, Structural)]
pub struct Instants {
    pub first: Timestamp,
    pub last: Timestamp,
}

/// What resolution is relative to: the present moment and the conventions.
#[derive(Clone, Copy, Debug, PartialEq, Eq, Structural)]
pub struct Context {
    pub now: i64,
    /// Whether an ambiguous moment means its latest past occurrence rather than
    /// its next future one.
    pub past: bool,
    pub monday_starts_week: bool,
    /// The day number of a day that starts a pay period.
    pub pay_start: Option<i64>,
    /// The length of a pay period in days; 0 for none.
    pub pay_length: u32,
}

impl Context {
    pub open spec fn wf(self) -> bool {
        &&& min_instant() <= self.now <= max_instant()
        &&& valid_ymd(
            civil_from_days(day_of(self.now as int)).0,
            civil_from_days(day_of(self.now as int)).1,
            civil_from_days(day_of(self.now as int)).2,
        )
        &&& day_number(
            civil_from_days(day_of(self.now as int)).0,
            civil_from_days(day_of(self.now as int)).1,
            civil_from_days(day_of(self.now as int)).2,
        ) == day_of(self.now as int)
        &&& self.pay_start matches Some(p) ==> day_in_range(p as int)
    }
}

/// The months searched, at most, for a day of the month: the calendar repeats
/// itself every 400 years.
pub const SEARCH_MONTHS: u32 = 4800;

pub open spec fn unit_length(u: Unit) -> int {
    match u {
        Unit::Second => SECOND_MS as int,
        Unit::Minute => MINUTE_MS as int,
        Unit::Hour => HOUR_MS as int,
        Unit::Day => DAY_MS as int,
        Unit::Week => WEEK_MS as int,
    }
}

pub open spec fn opt_value(v: Option<u8>) -> int {
    match v {
        Some(x) => x as int,
        None => 0,
    }
}

/// Milliseconds from the start of the day to a time of day.
pub open spec fn time_offset(t: TimeOfDay) -> int {
    t.hour * HOUR_MS + opt_value(t.minute) * MINUTE_MS + opt_value(t.second) * SECOND_MS
}

/// The granularity of a time of day: the finest unit it gives.
pub open spec fn time_width(t: TimeOfDay) -> int {
    if t.second is Some {
        SECOND_MS as int
    } else if t.minute is Some {
        MINUTE_MS as int
    } else {
        HOUR_MS as int
    }
}

/// The whole day `n`, or the time on it.
pub open spec fn day_interval(n: int, time: Option<TimeOfDay>) -> (int, int) {
    match time {
        None => (n * DAY_MS, (n + 1) * DAY_MS),
        Some(t) => (n * DAY_MS + time_offset(t), n * DAY_MS + time_offset(t) + time_width(t)),
    }
}

pub open spec fn within_range(s: int, e: int) -> Result<(int, int), TimeError> {
    if instant_in_range(s) && instant_in_range(e) {
        Ok((s, e))
    } else {
        Err(TimeError::OutOfRange)
    }
}

/// The year that two digits stand for: the latest year ending in them that is
/// not after `now_year`, or the century after it.
pub open spec fn century_year(digits: int, now_year: int, past: bool) -> int {
    let latest = now_year - (now_year - digits) % 100;
    if past {
        latest
    } else {
        latest + 100
    }
}

/// The astronomical year (1 BC is year 0) that a written year stands for.
pub open spec fn year_value(y: YearSpec, now_year: int, past: bool) -> int {
    match y {
        YearSpec::Full { value, bc } => if bc {
            1 - value
        } else {
            value as int
        },
        YearSpec::Short { digits } => century_year(digits as int, now_year, past),
    }
}

/// The latest reading of a written year: for two digits, the latest year with
/// them that is not after `now_year`.
pub open spec fn latest_reading(y: YearSpec, now_year: int) -> int {
    year_value(y, now_year, true)
}

/// Of two readings of a two-digit year a century apart, `latest` and its
/// neighbour: `latest` where its moment (`at_latest`) starts no later than now
/// (`past`) or after now (not `past`), and otherwise the century before
/// (`past`) or after it.
pub open spec fn pick_century(
    latest: int,
    at_latest: Result<(int, int), TimeError>,
    now: int,
    past: bool,
) -> int {
    let fits = at_latest matches Ok((s, _)) && (if past {
        s <= now
    } else {
        s > now
    });
    if fits {
        latest
    } else if past {
        latest - 100
    } else {
        latest + 100
    }
}

/// The year of a dated moment: a year in full as written; two digits read by
/// `pick_century`, given the moment that their latest reading gives.
pub open spec fn dated_year(
    y: YearSpec,
    now_year: int,
    now: int,
    past: bool,
    at_latest: Result<(int, int), TimeError>,
) -> int {
    match y {
        YearSpec::Full { .. } => year_value(y, now_year, past),
        YearSpec::Short { .. } => pick_century(latest_reading(y, now_year), at_latest, now, past),
    }
}

/// March, May, July and October have their nones on the 7th and ides on the 15th.
pub open spec fn late_nones(m: int) -> bool {
    m == 3 || m == 5 || m == 7 || m == 10
}

pub open spec fn day_value(d: DaySpec, m: int) -> int {
    match d {
        DaySpec::Num(n) => n as int,
        DaySpec::Kalends => 1,
        DaySpec::Nones => if late_nones(m) {
            7
        } else {
            5
        },
        DaySpec::Ides => if late_nones(m) {
            15
        } else {
            13
        },
    }
}

/// A date, checked against the calendar and against a weekday, as a day or at a time.
pub open spec fn date_spec(
    y: int,
    m: int,
    d: int,
    weekday: Option<u8>,
    time: Option<TimeOfDay>,
) -> Result<(int, int), TimeError> {
    if !valid_ymd(y, m, d) {
        Err(TimeError::InvalidDate { year: y as i64, month: m as u32, day: d as u32 })
    } else if !year_in_range(y) {
        Err(TimeError::OutOfRange)
    } else {
        let n = day_number(y, m, d);
        if weekday is Some && weekday_of(n) != weekday->0 {
            Err(
                TimeError::WeekdayMismatch {
                    year: y as i64,
                    month: m as u32,
                    day: d as u32,
                    weekday: weekday->0 as u32,
                },
            )
        } else {
            within_range(day_interval(n, time).0, day_interval(n, time).1)
        }
    }
}

/// Month `m` of year `y`.
pub open spec fn month_spec(y: int, m: int) -> Result<(int, int), TimeError> {
    if !year_in_range(y) {
        Err(TimeError::OutOfRange)
    } else {
        let n = day_number(y, m, 1);
        within_range(n * DAY_MS, (n + month_length(y, m)) * DAY_MS)
    }
}

pub open spec fn year_length(y: int) -> int {
    if is_leap(y) {
        366
    } else {
        365
    }
}

/// The whole year `y`.
pub open spec fn year_spec(y: int) -> Result<(int, int), TimeError> {
    if !year_in_range(y) {
        Err(TimeError::OutOfRange)
    } else {
        let n = day_number(y, 1, 1);
        within_range(n * DAY_MS, (n + year_length(y)) * DAY_MS)
    }
}

pub open spec fn shift(r: Relation) -> int {
    match r {
        Relation::This => 0,
        Relation::Next => 1,
        Relation::Last => -1,
    }
}

/// The first day of the week that holds day `n`.
pub open spec fn week_start(n: int, monday_first: bool) -> int {
    if monday_first {
        n - weekday_of(n)
    } else {
        n - (weekday_of(n) + 1) % 7
    }
}

/// The first day of the pay period that holds day `n`.
pub open spec fn pay_period_start(n: int, start: int, length: int) -> int {
    start + ((n - start) / length) * length
}

/// This, next or last week, weekend, month, year or pay period, as seen from now.
pub open spec fn period_spec(r: Relation, span: Span, c: Context) -> Result<(int, int), TimeError> {
    let nd = day_of(c.now as int);
    let k = shift(r);
    match span {
        Span::Week => {
            let s = week_start(nd, c.monday_starts_week) + 7 * k;
            within_range(s * DAY_MS, (s + 7) * DAY_MS)
        },
        Span::Weekend => {
            let s = nd - weekday_of(nd) + 5 + 7 * k;
            within_range(s * DAY_MS, (s + 2) * DAY_MS)
        },
        Span::Month => {
            let t = civil_from_days(nd).0 * 12 + civil_from_days(nd).1 - 1 + k;
            month_spec(t / 12, t % 12 + 1)
        },
        Span::Year => year_spec(civil_from_days(nd).0 + k),
        Span::PayPeriod => match c.pay_start {
            Some(p) if c.pay_length > 0 => {
                let s = pay_period_start(nd, p as int, c.pay_length as int) + k
                    * c.pay_length;
                within_range(s * DAY_MS, (s + c.pay_length) * DAY_MS)
            },
            _ => Err(TimeError::NoPayPeriod),
        },
    }
}

/// The year of a month named without one: the latest (`past`) or next such month
/// that is not before (`past`: after) the anchor's month.
pub open spec fn directional_year(month: int, ay: int, am: int, past: bool) -> int {
    if past {
        if month <= am {
            ay
        } else {
            ay - 1
        }
    } else {
        if month >= am {
            ay
        } else {
            ay + 1
        }
    }
}

/// Whether month `m`, day `d` of a year comes no later than month `am`, day `ad`.
pub open spec fn not_after(m: int, d: int, am: int, ad: int) -> bool {
    m < am || (m == am && d <= ad)
}

/// The year of a month and day named without one: the year of their latest
/// occurrence on or before the anchor's day (month `am`, day `ad` of year `ay`)
/// where `past`, else of their first occurrence after it.
pub open spec fn month_day_year(m: int, d: int, ay: int, am: int, ad: int, past: bool) -> int {
    if past {
        if not_after(m, d, am, ad) {
            ay
        } else {
            ay - 1
        }
    } else {
        if not_after(m, d, am, ad) {
            ay + 1
        } else {
            ay
        }
    }
}

/// The month where the search for a day of the month starts: the anchor's
/// month (year `ay`, month `am`, day `ad`) where that day in it lies on or
/// before the anchor's day (`past`) or after it, else the month before (`past`)
/// or after.
pub open spec fn first_search_month(day: int, ay: int, am: int, ad: int, past: bool) -> (int, int) {
    if past == (day <= ad) {
        (ay, am)
    } else {
        step_month(ay, am, past)
    }
}

/// The latest day before day `n` that falls on weekday `w`.
pub open spec fn weekday_before(n: int, w: int) -> int {
    n - (weekday_of(n) - w + 6) % 7 - 1
}

/// The first day after day `n` that falls on weekday `w`.
pub open spec fn weekday_after(n: int, w: int) -> int {
    n + (w - weekday_of(n) + 6) % 7 + 1
}

/// Weekday `w` of the week that starts on day `s`.
pub open spec fn weekday_in_week(s: int, w: int, monday_first: bool) -> int {
    if monday_first {
        s + w
    } else {
        s + (w + 1) % 7
    }
}

/// The start of a time of day named without a day: its latest occurrence not after
/// the anchor, or its first occurrence after it.
pub open spec fn time_only_start(a: int, t: TimeOfDay, past: bool) -> int {
    let c0 = day_of(a) * DAY_MS + time_offset(t);
    if past {
        if c0 <= a {
            c0
        } else {
            c0 - DAY_MS
        }
    } else {
        if c0 > a {
            c0
        } else {
            c0 + DAY_MS
        }
    }
}

/// Whether month `m` of year `y` has a day `day`, on weekday `w` if one is given.
pub open spec fn day_fits(y: int, m: int, day: int, w: Option<u8>) -> bool {
    &&& year_in_range(y)
    &&& valid_ymd(y, m, day)
    &&& w matches Some(w) ==> weekday_of(day_number(y, m, day)) == w
}

pub open spec fn step_month(y: int, m: int, past: bool) -> (int, int) {
    if past {
        if m == 1 {
            (y - 1, 12)
        } else {
            (y, m - 1)
        }
    } else {
        if m == 12 {
            (y + 1, 1)
        } else {
            (y, m + 1)
        }
    }
}

/// The first month, from month `m` of year `y` stepping into the past or the
/// future, that has day `day` (on weekday `w`), within `fuel` months.
pub open spec fn find_month(y: int, m: int, day: int, w: Option<u8>, past: bool, fuel: nat) -> Option<
    (int, int),
>
    decreases fuel,
{
    if fuel == 0 {
        None
    } else if day_fits(y, m, day, w) {
        Some((y, m))
    } else {
        find_month(
            step_month(y, m, past).0,
            step_month(y, m, past).1,
            day,
            w,
            past,
            (fuel - 1) as nat,
        )
    }
}

/// A date, a month of a year or a year, as written; a two-digit year is read by
/// `dated_year` against the present.
pub open spec fn dated_spec(m: Moment, c: Context) -> Result<(int, int), TimeError> {
    let n = c.now as int;
    let ny = civil_from_days(day_of(n)).0;
    match m {
        Moment::Date { year, month, day, weekday, time } => {
            let d = day_value(day, month as int);
            let at_latest = date_spec(latest_reading(year, ny), month as int, d, weekday, time);
            date_spec(dated_year(year, ny, n, c.past, at_latest), month as int, d, weekday, time)
        },
        Moment::MonthOfYear { year, month } => month_spec(
            dated_year(year, ny, n, c.past, month_spec(latest_reading(year, ny), month as int)),
            month as int,
        ),
        Moment::Year { year } => year_spec(
            dated_year(year, ny, n, c.past, year_spec(latest_reading(year, ny))),
        ),
        _ => Err(TimeError::OutOfRange),
    }
}

/// A day of the month named without its month: that day in the nearest month to
/// the anchor's (in the past or the future, the anchor's month included) that has it.
pub open spec fn day_of_month_spec(day: int, weekday: Option<u8>, a: int, past: bool) -> Result<
    (int, int),
    TimeError,
> {
    let ad = day_of(a);
    let ay = civil_from_days(ad).0;
    let am = civil_from_days(ad).1;
    let first = first_search_month(day, ay, am, civil_from_days(ad).2, past);
    if !day_in_range(ad) {
        Err(TimeError::OutOfRange)
    } else {
        match find_month(first.0, first.1, day, weekday, past, SEARCH_MONTHS as nat) {
            None => Err(
                TimeError::InvalidDate { year: ay as i64, month: am as u32, day: day as u32 },
            ),
            Some((y, mo)) => date_spec(y, mo, day, None, None),
        }
    }
}

/// The interval of a moment. Deictic words ("today", "this week") are read against
/// `c.now`; a moment named without its larger period ("Friday", "May", "3 pm")
/// takes the occurrence nearest to the anchor `a`, in the past or the future as
/// `past` says.
pub open spec fn moment_spec(m: Moment, c: Context, a: int, past: bool) -> Result<
    (int, int),
    TimeError,
>
    decreases m,
{
    let n = c.now as int;
    let nd = day_of(n);
    let ny = civil_from_days(nd).0;
    let ad = day_of(a);
    let ay = civil_from_days(ad).0;
    let am = civil_from_days(ad).1;
    match m {
        Moment::Now => within_range(n, n + SECOND_MS),
        Moment::Beginning => Ok((min_instant(), min_instant() + MINUTE_MS)),
        Moment::End => Ok((max_instant() - MINUTE_MS, max_instant())),
        Moment::Date { .. } => dated_spec(m, c),
        Moment::MonthOfYear { .. } => dated_spec(m, c),
        Moment::Year { .. } => dated_spec(m, c),
        Moment::DayAdverb { offset, time } => within_range(
            day_interval(nd + offset, time).0,
            day_interval(nd + offset, time).1,
        ),
        Moment::TimeOnly { time } => within_range(
            time_only_start(a, time, past),
            time_only_start(a, time, past) + time_width(time),
        ),
        Moment::Period { relation, span } => period_spec(relation, span, c),
        Moment::NamedMonth { relation, month } => match relation {
            Some(r) => month_spec(ny + shift(r), month as int),
            None => if !day_in_range(ad) {
                Err(TimeError::OutOfRange)
            } else {
                month_spec(directional_year(month as int, ay, am, past), month as int)
            },
        },
        Moment::NamedWeekday { relation, weekday, time } => {
            let d = match relation {
                Some(r) => weekday_in_week(
                    week_start(nd, c.monday_starts_week) + 7 * shift(r),
                    weekday as int,
                    c.monday_starts_week,
                ),
                None => if past {
                    weekday_before(ad, weekday as int)
                } else {
                    weekday_after(ad, weekday as int)
                },
            };
            within_range(day_interval(d, time).0, day_interval(d, time).1)
        },
        Moment::MonthDay { month, day } => if !day_in_range(ad) {
            Err(TimeError::OutOfRange)
        } else {
            date_spec(
                month_day_year(
                    month as int,
                    day_value(day, month as int),
                    ay,
                    am,
                    civil_from_days(ad).2,
                    past,
                ),
                month as int,
                day_value(day, month as int),
                None,
                None,
            )
        },
        Moment::DayOfMonth { day, weekday } => day_of_month_spec(day as int, weekday, a, past),
        Moment::FromNow { count, unit, forward } => {
            let s = if forward {
                n + count * unit_length(unit)
            } else {
                n - count * unit_length(unit)
            };
            within_range(s, s + unit_length(unit))
        },
        Moment::Displaced { count, unit, placement, base } => match moment_spec(
            *base,
            c,
            n,
            c.past,
        ) {
            Err(e) => Err(e),
            Ok((b, be)) => {
                let k = count * unit_length(unit);
                match placement {
                    Placement::Before => within_range(b - k, b - k),
                    Placement::After => within_range(be + k, be + k),
                    Placement::BeforeAndAfter => within_range(b - k, b + k),
                    Placement::Around => within_range(b - k / 2, b - k / 2 + k),
                }
            },
        },
        Moment::StartOf { base } => match moment_spec(*base, c, a, past) {
            Err(e) => Err(e),
            Ok((s, _)) => within_range(s, s + SECOND_MS),
        },
        Moment::EndOf { base } => match moment_spec(*base, c, a, past) {
            Err(e) => Err(e),
            Ok((_, e)) => within_range(e - SECOND_MS, e),
        },
    }
}

/// A moment that names its calendar point in full, so that it needs no anchor.
pub open spec fn is_absolute(m: Moment) -> bool {
    ||| m is Date
    ||| m is MonthOfYear
    ||| m is Year
    ||| m is Beginning
    ||| m is End
}

pub open spec fn stamp(t: int) -> Timestamp {
    Timestamp { millis: t as i64 }
}

/// The two moments of a range: an absolute first moment is resolved first and
/// anchors the second, read forward from it; otherwise the second is resolved
/// first and anchors the first, read backward from it.
pub open spec fn range_moments(first: Moment, last: Moment, c: Context) -> Result<
    ((int, int), (int, int)),
    TimeError,
> {
    let n = c.now as int;
    if is_absolute(first) {
        match moment_spec(first, c, n, c.past) {
            Err(e) => Err(e),
            Ok(f) => match moment_spec(last, c, f.0, false) {
                Err(e) => Err(e),
                Ok(l) => Ok((f, l)),
            },
        }
    } else {
        match moment_spec(last, c, n, c.past) {
            Err(e) => Err(e),
            Ok(l) => match moment_spec(first, c, l.0, true) {
                Err(e) => Err(e),
                Ok(f) => Ok((f, l)),
            },
        }
    }
}

/// The interval of an expression, and whether it named two moments.
#[verifier::opaque]
pub open spec fn expr_spec(e: Expr, c: Context) -> Result<(int, int, bool), TimeError> {
    let n = c.now as int;
    match e {
        Expr::Universal => Ok((min_instant(), max_instant(), false)),
        Expr::Single(m) => match moment_spec(m, c, n, c.past) {
            Ok((s, t)) => Ok((s, t, false)),
            Err(x) => Err(x),
        },
        Expr::Since(m) => match moment_spec(m, c, n, c.past) {
            Ok((s, _)) => if s > n {
                Err(TimeError::Misordered(Instants { first: stamp(s), last: stamp(n) }))
            } else {
                Ok((s, n, false))
            },
            Err(x) => Err(x),
        },
        Expr::Range { first, last, inclusive } => match range_moments(first, last, c) {
            Err(x) => Err(x),
            Ok((f, l)) => if f.0 > l.0 {
                Err(TimeError::Misordered(Instants { first: stamp(f.0), last: stamp(l.0) }))
            } else {
                Ok(
                    (f.0, if inclusive {
                        l.1
                    } else {
                        l.0
                    }, true),
                )
            },
        },
    }
}

/// Whether an executable interval is the one that a spec result gives.
pub open spec fn agrees(r: Result<(i64, i64), TimeError>, s: Result<(int, int), TimeError>) -> bool {
    match s {
        Ok((a, b)) => r matches Ok((x, y)) && x == a && y == b,
        Err(e) => r == Err::<(i64, i64), TimeError>(e),
    }
}


pub open spec fn agrees3(
    r: Result<(i64, i64, bool), TimeError>,
    s: Result<(int, int, bool), TimeError>,
) -> bool {
    match s {
        Ok((a, b, t)) => r matches Ok((x, y, u)) && x == a && y == b && u == t,
        Err(e) => r == Err::<(i64, i64, bool), TimeError>(e),
    }
}

/// Instants in range lie on days in range (or on the day after the last, for the
/// end of the last day).
pub proof fn lemma_day_of_bounds(t: int)
    requires
        instant_in_range(t),
    ensures
        MIN_DAY <= day_of(t) <= MAX_DAY + 1,
        t <= max_instant() ==> day_of(t) <= MAX_DAY,
        day_of(t) * DAY_MS <= t < day_of(t) * DAY_MS + DAY_MS,
{
    lemma_fundamental_div_mod(t, DAY_MS as int);
    lemma_mod_bound(t, DAY_MS as int);
    let q = day_of(t);
    assert(t == q * DAY_MS + t % (DAY_MS as int)) by {
        lemma_mul_is_commutative(q, DAY_MS as int);
    }
    if q < MIN_DAY {
        lemma_mul_inequality(q + 1, MIN_DAY as int, DAY_MS as int);
    }
    if q > MAX_DAY + 1 {
        lemma_mul_inequality(MAX_DAY + 2, q, DAY_MS as int);
    }
    if t <= max_instant() && q > MAX_DAY {
        lemma_mul_inequality(MAX_DAY + 1, q, DAY_MS as int);
    }
}

fn unit_ms(u: Unit) -> (r: i64)
    ensures
        r == unit_length(u),
        0 < r <= WEEK_MS,
{
    match u {
        Unit::Second => SECOND_MS,
        Unit::Minute => MINUTE_MS,
        Unit::Hour => HOUR_MS,
        Unit::Day => DAY_MS,
        Unit::Week => WEEK_MS,
    }
}

fn time_offset_ms(t: TimeOfDay) -> (r: i64)
    requires
        t.wf(),
    ensures
        r == time_offset(t),
        0 <= r <= DAY_MS,
{
    let m: i64 = match t.minute {
        Some(m) => m as i64,
        None => 0,
    };
    let s: i64 = match t.second {
        Some(s) => s as i64,
        None => 0,
    };
    t.hour as i64 * HOUR_MS + m * MINUTE_MS + s * SECOND_MS
}

fn time_width_ms(t: TimeOfDay) -> (r: i64)
    ensures
        r == time_width(t),
        0 < r <= HOUR_MS,
{
    if t.second.is_some() {
        SECOND_MS
    } else if t.minute.is_some() {
        MINUTE_MS
    } else {
        HOUR_MS
    }
}

fn check_range(s: i64, e: i64) -> (r: Result<(i64, i64), TimeError>)
    ensures
        agrees(r, within_range(s as int, e as int)),
{
    let lo: i64 = MIN_DAY * DAY_MS;
    let hi: i64 = (MAX_DAY + 1) * DAY_MS;
    if lo <= s && s <= hi && lo <= e && e <= hi {
        Ok((s, e))
    } else {
        Err(TimeError::OutOfRange)
    }
}

fn day_interval_ms(n: i64, time: Option<TimeOfDay>) -> (r: (i64, i64))
    requires
        -1_000_000_000 <= n <= 1_000_000_000,
        time_wf(time),
    ensures
        r.0 == day_interval(n as int, time).0,
        r.1 == day_interval(n as int, time).1,
{
    match time {
        None => (n * DAY_MS, (n + 1) * DAY_MS),
        Some(t) => {
            let s = n * DAY_MS + time_offset_ms(t);
            (s, s + time_width_ms(t))
        },
    }
}

fn year_number(y: YearSpec, now_year: i64, past: bool) -> (r: i64)
    requires
        y.wf(),
        -1_000_000 <= now_year <= 1_000_000,
    ensures
        r == year_value(y, now_year as int, past),
        -1_000_200 <= r <= 1_000_200,
{
    match y {
        YearSpec::Full { value, bc } => {
            if bc {
                1 - value as i64
            } else {
                value as i64
            }
        },
        YearSpec::Short { digits } => {
            let k: i64 = now_year - digits as i64 + 1_000_000_000;
            proof {
                lemma_mod_multiples_vanish(10_000_000, now_year - digits, 100);
                lemma_mod_bound(now_year - digits, 100);
            }
            let latest = now_year - k % 100;
            if past {
                latest
            } else {
                latest + 100
            }
        },
    }
}

fn day_value_of(d: DaySpec, m: u8) -> (r: u32)
    ensures
        r == day_value(d, m as int),
{
    match d {
        DaySpec::Num(n) => n as u32,
        DaySpec::Kalends => 1,
        DaySpec::Nones => if m == 3 || m == 5 || m == 7 || m == 10 {
            7
        } else {
            5
        },
        DaySpec::Ides => if m == 3 || m == 5 || m == 7 || m == 10 {
            15
        } else {
            13
        },
    }
}

/// The interval of a date, checked against the calendar and the weekday given.
pub fn date_interval(y: i64, m: u32, d: u32, weekday: Option<u8>, time: Option<TimeOfDay>) -> (r:
    Result<(i64, i64), TimeError>)
    requires
        -1_000_000_000 <= y <= 1_000_000_000,
        time_wf(time),
    ensures
        agrees(r, date_spec(y as int, m as int, d as int, weekday, time)),
{
    if !is_valid_date(y, m, d) {
        return Err(TimeError::InvalidDate { year: y, month: m, day: d });
    }
    match date_to_day(y, m, d) {
        None => Err(TimeError::OutOfRange),
        Some(n) => {
            if let Some(w) = weekday {
                if weekday_of_day(n) != w as i64 {
                    return Err(
                        TimeError::WeekdayMismatch { year: y, month: m, day: d, weekday: w as u32 },
                    );
                }
            }
            let (s, e) = day_interval_ms(n, time);
            check_range(s, e)
        },
    }
}

/// Month `m` of year `y`.
pub fn month_interval(y: i64, m: u32) -> (r: Result<(i64, i64), TimeError>)
    requires
        1 <= m <= 12,
        -1_000_000_000 <= y <= 1_000_000_000,
    ensures
        agrees(r, month_spec(y as int, m as int)),
{
    match date_to_day(y, m, 1) {
        None => Err(TimeError::OutOfRange),
        Some(n) => {
            let len = days_in_month(y, m) as i64;
            check_range(n * DAY_MS, (n + len) * DAY_MS)
        },
    }
}

/// The whole year `y`.
pub fn year_interval(y: i64) -> (r: Result<(i64, i64), TimeError>)
    requires
        -1_000_000_000 <= y <= 1_000_000_000,
    ensures
        agrees(r, year_spec(y as int)),
{
    match date_to_day(y, 1, 1) {
        None => Err(TimeError::OutOfRange),
        Some(n) => {
            let len: i64 = if is_leap_year(y) {
                366
            } else {
                365
            };
            check_range(n * DAY_MS, (n + len) * DAY_MS)
        },
    }
}

fn shift_of(r: Relation) -> (k: i64)
    ensures
        k == shift(r),
{
    match r {
        Relation::This => 0,
        Relation::Next => 1,
        Relation::Last => -1,
    }
}

fn week_start_of(n: i64, monday_first: bool) -> (r: i64)
    requires
        -1_000_000_000 <= n <= 1_000_000_000,
    ensures
        r == week_start(n as int, monday_first),
        n - 6 <= r <= n,
{
    let w = weekday_of_day(n);
    if monday_first {
        n - w
    } else {
        n - (w + 1) % 7
    }
}

/// This, next or last week, weekend, month, year or pay period.
pub fn period_interval(r: Relation, span: Span, c: &Context) -> (res: Result<(i64, i64), TimeError>)
    requires
        c.wf(),
    ensures
        agrees(res, period_spec(r, span, *c)),
{
    proof {
        lemma_day_of_bounds(c.now as int);
    }
    let nd = floor_div(c.now, DAY_MS);
    let k = shift_of(r);
    match span {
        Span::Week => {
            let s = week_start_of(nd, c.monday_starts_week) + 7 * k;
            check_range(s * DAY_MS, (s + 7) * DAY_MS)
        },
        Span::Weekend => {
            let s = nd - weekday_of_day(nd) + 5 + 7 * k;
            check_range(s * DAY_MS, (s + 2) * DAY_MS)
        },
        Span::Month => {
            match day_to_date(nd) {
                None => Err(TimeError::OutOfRange),
                Some((y, m, _)) => {
                    let t = y as i64 * 12 + m as i64 - 1 + k;
                    let q = floor_div(t, 12);
                    proof {
                        lemma_fundamental_div_mod(t as int, 12);
                        lemma_mod_bound(t as int, 12);
                    }
                    let mo = t - q * 12 + 1;
                    month_interval(q, mo as u32)
                },
            }
        },
        Span::Year => {
            match day_to_date(nd) {
                None => Err(TimeError::OutOfRange),
                Some((y, _, _)) => year_interval(y as i64 + k),
            }
        },
        Span::PayPeriod => {
            match c.pay_start {
                Some(p) if c.pay_length > 0 => {
                    let l = c.pay_length as i64;
                    let x = nd - p;
                    let q = floor_div(x, l);
                    proof {
                        lemma_fundamental_div_mod(x as int, l as int);
                        lemma_mod_bound(x as int, l as int);
                        lemma_mul_is_commutative(q as int, l as int);
                    }
                    let s = p + q * l + k * l;
                    check_range(s * DAY_MS, (s + l) * DAY_MS)
                },
                _ => Err(TimeError::NoPayPeriod),
            }
        },
    }
}


fn day_fits_exec(y: i64, m: u32, day: u32, w: Option<u8>) -> (r: bool)
    requires
        -1_000_000_000 <= y <= 1_000_000_000,
    ensures
        r == day_fits(y as int, m as int, day as int, w),
{
    if y < MIN_YEAR as i64 || y > MAX_YEAR as i64 || !is_valid_date(y, m, day) {
        return false;
    }
    match date_to_day(y, m, day) {
        None => false,
        Some(n) => match w {
            None => true,
            Some(w) => weekday_of_day(n) == w as i64,
        },
    }
}

/// The month nearest to month `m` of year `y`, in the past or the future and
/// that month included, that has day `day` (falling on weekday `w` if one is given).
pub fn find_month_of_day(y: i64, m: u32, day: u32, w: Option<u8>, past: bool) -> (r: Option<
    (i64, u32),
>)
    requires
        -1_000_000 <= y <= 1_000_000,
        1 <= m <= 12,
    ensures
        match find_month(y as int, m as int, day as int, w, past, SEARCH_MONTHS as nat) {
            Some((fy, fm)) => r matches Some((ry, rm)) && ry == fy && rm == fm,
            None => r is None,
        },
        r matches Some((fy, _)) ==> y - SEARCH_MONTHS <= fy <= y + SEARCH_MONTHS,
{
    let mut cy = y;
    let mut cm = m;
    let mut fuel = SEARCH_MONTHS;
    while fuel > 0
        invariant
            1 <= cm <= 12,
            y - (SEARCH_MONTHS - fuel) <= cy <= y + (SEARCH_MONTHS - fuel),
            fuel <= SEARCH_MONTHS,
            -1_000_000 <= y <= 1_000_000,
            find_month(cy as int, cm as int, day as int, w, past, fuel as nat) == find_month(
                y as int,
                m as int,
                day as int,
                w,
                past,
                SEARCH_MONTHS as nat,
            ),
        decreases fuel,
    {
        if day_fits_exec(cy, cm, day, w) {
            return Some((cy, cm));
        }
        if past {
            if cm == 1 {
                cy = cy - 1;
                cm = 12;
            } else {
                cm = cm - 1;
            }
        } else {
            if cm == 12 {
                cy = cy + 1;
                cm = 1;
            } else {
                cm = cm + 1;
            }
        }
        fuel = fuel - 1;
    }
    None
}

/// The interval of a moment, against the context and an anchor (see `moment_spec`).
pub fn resolve_moment(m: &Moment, c: &Context, a: i64, past: bool) -> (r: Result<
    (i64, i64),
    TimeError,
>)
    requires
        m.wf(),
        c.wf(),
        instant_in_range(a as int),
    ensures
        agrees(r, moment_spec(*m, *c, a as int, past)),
    decreases m,
{
    let n = c.now;
    match m {
        Moment::Now => check_range(n, n + SECOND_MS),
        Moment::Beginning => {
            let lo: i64 = MIN_DAY * DAY_MS;
            Ok((lo, lo + MINUTE_MS))
        },
        Moment::End => {
            let hi: i64 = (MAX_DAY + 1) * DAY_MS - 1;
            Ok((hi - MINUTE_MS, hi))
        },
        Moment::Date { .. } => calendar_interval(m, c),
        Moment::MonthOfYear { .. } => calendar_interval(m, c),
        Moment::Year { .. } => calendar_interval(m, c),
        Moment::DayAdverb { offset, time } => {
            proof {
                lemma_day_of_bounds(c.now as int);
            }
            let nd = floor_div(n, DAY_MS);
            let (s, e) = day_interval_ms(nd + *offset as i64, *time);
            check_range(s, e)
        },
        Moment::TimeOnly { time } => time_only_interval(a, *time, past),
        Moment::Period { relation, span } => period_interval(*relation, *span, c),
        Moment::NamedMonth { relation, month } => named_month_interval(*relation, *month, c, a, past),
        Moment::NamedWeekday { relation, weekday, time } => weekday_interval(
            *relation,
            *weekday,
            *time,
            c,
            a,
            past,
        ),
        Moment::MonthDay { month, day } => month_day_interval(*month, *day, c, a, past),
        Moment::DayOfMonth { day, weekday } => day_of_month_interval(*day, *weekday, c, a, past),
        Moment::FromNow { count, unit, forward } => from_now_interval(n, *count, *unit, *forward),
        Moment::Displaced { count, unit, placement, base } => {
            match resolve_moment(base, c, n, c.past) {
                Err(e) => Err(e),
                Ok((b, be)) => place(b, be, *count, *unit, *placement),
            }
        },
        Moment::StartOf { base } => match resolve_moment(base, c, a, past) {
            Err(e) => Err(e),
            Ok((s, _)) => check_range(s, s + SECOND_MS),
        },
        Moment::EndOf { base } => match resolve_moment(base, c, a, past) {
            Err(e) => Err(e),
            Ok((_, e)) => check_range(e - SECOND_MS, e),
        },
    }
}

fn directional_year_of(month: u32, ay: i64, am: u32, past: bool) -> (r: i64)
    requires
        -1_000_000 <= ay <= 1_000_000,
    ensures
        r == directional_year(month as int, ay as int, am as int, past),
        ay - 1 <= r <= ay + 1,
{
    if past {
        if month <= am {
            ay
        } else {
            ay - 1
        }
    } else {
        if month >= am {
            ay
        } else {
            ay + 1
        }
    }
}


fn time_only_interval(a: i64, time: TimeOfDay, past: bool) -> (r: Result<(i64, i64), TimeError>)
    requires
        instant_in_range(a as int),
        time.wf(),
    ensures
        agrees(
            r,
            within_range(
                time_only_start(a as int, time, past),
                time_only_start(a as int, time, past) + time_width(time),
            ),
        ),
{
    proof {
        lemma_day_of_bounds(a as int);
    }
    let ad = floor_div(a, DAY_MS);
    let c0 = ad * DAY_MS + time_offset_ms(time);
    let s = if past {
        if c0 <= a {
            c0
        } else {
            c0 - DAY_MS
        }
    } else {
        if c0 > a {
            c0
        } else {
            c0 + DAY_MS
        }
    };
    check_range(s, s + time_width_ms(time))
}

fn weekday_interval(
    relation: Option<Relation>,
    weekday: u8,
    time: Option<TimeOfDay>,
    c: &Context,
    a: i64,
    past: bool,
) -> (r: Result<(i64, i64), TimeError>)
    requires
        c.wf(),
        instant_in_range(a as int),
        weekday < 7,
        time_wf(time),
    ensures
        agrees(
            r,
            moment_spec(Moment::NamedWeekday { relation, weekday, time }, *c, a as int, past),
        ),
{
    proof {
        lemma_day_of_bounds(c.now as int);
        lemma_day_of_bounds(a as int);
    }
    let nd = floor_div(c.now, DAY_MS);
    let ad = floor_div(a, DAY_MS);
    let w = weekday as i64;
    let d = match relation {
        Some(r) => {
            let s = week_start_of(nd, c.monday_starts_week) + 7 * shift_of(r);
            if c.monday_starts_week {
                s + w
            } else {
                s + (w + 1) % 7
            }
        },
        None => {
            let wa = weekday_of_day(ad);
            if past {
                ad - (wa - w + 6) % 7 - 1
            } else {
                ad + (w - wa + 6) % 7 + 1
            }
        },
    };
    let (s, e) = day_interval_ms(d, time);
    check_range(s, e)
}

fn from_now_interval(n: i64, count: u32, unit: Unit, forward: bool) -> (r: Result<
    (i64, i64),
    TimeError,
>)
    requires
        instant_in_range(n as int),
        count <= MAX_COUNT,
    ensures
        agrees(
            r,
            within_range(
                if forward {
                    n + count * unit_length(unit)
                } else {
                    n - count * unit_length(unit)
                },
                if forward {
                    n + count * unit_length(unit)
                } else {
                    n - count * unit_length(unit)
                } + unit_length(unit),
            ),
        ),
{
    let u = unit_ms(unit);
    assert(0 <= count * u <= MAX_COUNT * WEEK_MS) by (nonlinear_arith)
        requires
            count <= MAX_COUNT,
            0 < u <= WEEK_MS,
    ;
    let k = count as i64 * u;
    let s = if forward {
        n + k
    } else {
        n - k
    };
    check_range(s, s + u)
}

fn place(b: i64, be: i64, count: u32, unit: Unit, placement: Placement) -> (r: Result<
    (i64, i64),
    TimeError,
>)
    requires
        instant_in_range(b as int),
        instant_in_range(be as int),
        count <= MAX_COUNT,
    ensures
        ({
            let k = count * unit_length(unit);
            agrees(
                r,
                match placement {
                    Placement::Before => within_range(b - k, b - k),
                    Placement::After => within_range(be + k, be + k),
                    Placement::BeforeAndAfter => within_range(b - k, b + k),
                    Placement::Around => within_range(b - k / 2, b - k / 2 + k),
                },
            )
        }),
{
    let u = unit_ms(unit);
    assert(0 <= count * u <= MAX_COUNT * WEEK_MS) by (nonlinear_arith)
        requires
            count <= MAX_COUNT,
            0 < u <= WEEK_MS,
    ;
    let k = count as i64 * u;
    match placement {
        Placement::Before => check_range(b - k, b - k),
        Placement::After => check_range(be + k, be + k),
        Placement::BeforeAndAfter => check_range(b - k, b + k),
        Placement::Around => check_range(b - k / 2, b - k / 2 + k),
    }
}


/// Whether an interval starts no later than now (`past`) or after now.
fn fits_now(at: &Result<(i64, i64), TimeError>, now: i64, past: bool) -> (r: bool)
    ensures
        r == (at matches Ok((s, _)) && (if past {
            s <= now
        } else {
            s > now
        })),
{
    match at {
        Ok((s, _)) => if past {
            *s <= now
        } else {
            *s > now
        },
        Err(_) => false,
    }
}

fn century_of(latest: i64, fits: bool, past: bool) -> (r: i64)
    requires
        -1_000_200 <= latest <= 1_000_200,
    ensures
        r == (if fits {
            latest as int
        } else if past {
            latest - 100
        } else {
            latest + 100
        }),
{
    if fits {
        latest
    } else if past {
        latest - 100
    } else {
        latest + 100
    }
}

/// Dates, months and years as written, read against the present's calendar.
fn calendar_interval(m: &Moment, c: &Context) -> (r: Result<
    (i64, i64),
    TimeError,
>)
    requires
        m.wf(),
        c.wf(),
        m is Date || m is MonthOfYear || m is Year,
    ensures
        agrees(r, dated_spec(*m, *c)),
{
    proof {
        lemma_day_of_bounds(c.now as int);
    }
    let nd = floor_div(c.now, DAY_MS);
    let now_date = day_to_date(nd);
    let ny: i64 = match now_date {
        Some((y, _, _)) => y as i64,
        None => 0,
    };
    assert(now_date is Some);
    let latest = match m {
        Moment::Date { year, .. } => year_number(*year, ny, true),
        Moment::MonthOfYear { year, .. } => year_number(*year, ny, true),
        Moment::Year { year } => year_number(*year, ny, true),
        _ => 0,
    };
    match m {
        Moment::Date { year, month, day, weekday, time } => {
            let d = day_value_of(*day, *month);
            let y = match year {
                YearSpec::Full { .. } => year_number(*year, ny, c.past),
                YearSpec::Short { .. } => {
                    let at = date_interval(latest, *month as u32, d, *weekday, *time);
                    century_of(latest, fits_now(&at, c.now, c.past), c.past)
                },
            };
            date_interval(y, *month as u32, d, *weekday, *time)
        },
        Moment::MonthOfYear { year, month } => {
            let y = match year {
                YearSpec::Full { .. } => year_number(*year, ny, c.past),
                YearSpec::Short { .. } => {
                    let at = month_interval(latest, *month as u32);
                    century_of(latest, fits_now(&at, c.now, c.past), c.past)
                },
            };
            month_interval(y, *month as u32)
        },
        Moment::Year { year } => {
            let y = match year {
                YearSpec::Full { .. } => year_number(*year, ny, c.past),
                YearSpec::Short { .. } => {
                    let at = year_interval(latest);
                    century_of(latest, fits_now(&at, c.now, c.past), c.past)
                },
            };
            year_interval(y)
        },
        _ => Err(TimeError::OutOfRange),
    }
}

/// A named month: of this, next or last year, or the occurrence nearest to the anchor.
fn named_month_interval(relation: Option<Relation>, month: u8, c: &Context, a: i64, past: bool) -> (r:
    Result<(i64, i64), TimeError>)
    requires
        month_wf(month),
        c.wf(),
        instant_in_range(a as int),
    ensures
        agrees(r, moment_spec(Moment::NamedMonth { relation, month }, *c, a as int, past)),
{
    proof {
        lemma_day_of_bounds(c.now as int);
        lemma_day_of_bounds(a as int);
    }
    match relation {
        Some(r) => {
            let nd = floor_div(c.now, DAY_MS);
            let now_date = day_to_date(nd);
            assert(now_date is Some);
            let ny: i64 = match now_date {
                Some((y, _, _)) => y as i64,
                None => 0,
            };
            month_interval(ny + shift_of(r), month as u32)
        },
        None => {
            let ad = floor_div(a, DAY_MS);
            match day_to_date(ad) {
                None => Err(TimeError::OutOfRange),
                Some((ay, am, _)) => {
                    let y = directional_year_of(month as u32, ay as i64, am, past);
                    month_interval(y, month as u32)
                },
            }
        },
    }
}

/// A month and day without a year: the occurrence nearest to the anchor.
fn month_day_interval(month: u8, day: DaySpec, c: &Context, a: i64, past: bool) -> (r: Result<
    (i64, i64),
    TimeError,
>)
    requires
        month_wf(month),
        day.wf(),
        c.wf(),
        instant_in_range(a as int),
    ensures
        agrees(r, moment_spec(Moment::MonthDay { month, day }, *c, a as int, past)),
{
    proof {
        lemma_day_of_bounds(a as int);
    }
    let ad = floor_div(a, DAY_MS);
    match day_to_date(ad) {
        None => Err(TimeError::OutOfRange),
        Some((ay, am, add)) => {
            let d = day_value_of(day, month);
            let m = month as u32;
            let before = m < am || (m == am && d <= add);
            let y: i64 = if past {
                if before {
                    ay as i64
                } else {
                    ay as i64 - 1
                }
            } else {
                if before {
                    ay as i64 + 1
                } else {
                    ay as i64
                }
            };
            date_interval(y, m, d, None, None)
        },
    }
}

/// A day of the month without a month: the nearest month to the anchor that has it.
fn day_of_month_interval(day: u8, weekday: Option<u8>, c: &Context, a: i64, past: bool) -> (r:
    Result<(i64, i64), TimeError>)
    requires
        1 <= day <= 31,
        c.wf(),
        instant_in_range(a as int),
    ensures
        agrees(r, day_of_month_spec(day as int, weekday, a as int, past)),
{
    proof {
        lemma_day_of_bounds(a as int);
    }
    let ad = floor_div(a, DAY_MS);
    match day_to_date(ad) {
        None => Err(TimeError::OutOfRange),
        Some((ay, am, add)) => {
            let (fy, fm): (i64, u32) = if past == (day as u32 <= add) {
                (ay as i64, am)
            } else if past {
                if am == 1 {
                    (ay as i64 - 1, 12)
                } else {
                    (ay as i64, am - 1)
                }
            } else {
                if am == 12 {
                    (ay as i64 + 1, 1)
                } else {
                    (ay as i64, am + 1)
                }
            };
            let found = find_month_of_day(fy, fm, day as u32, weekday, past);
            match found {
                None => Err(TimeError::InvalidDate { year: ay as i64, month: am, day: day as u32 }),
                Some((y, mo)) => date_interval(y, mo, day as u32, None, None),
            }
        },
    }
}


fn is_absolute_moment(m: &Moment) -> (r: bool)
    ensures
        r == is_absolute(*m),
{
    match m {
        Moment::Date { .. } => true,
        Moment::MonthOfYear { .. } => true,
        Moment::Year { .. } => true,
        Moment::Beginning => true,
        Moment::End => true,
        _ => false,
    }
}

fn resolve_range(first: &Moment, last: &Moment, c: &Context) -> (r: Result<
    ((i64, i64), (i64, i64)),
    TimeError,
>)
    requires
        first.wf(),
        last.wf(),
        c.wf(),
    ensures
        match range_moments(*first, *last, *c) {
            Ok((f, l)) => r matches Ok((rf, rl)) && rf.0 == f.0 && rf.1 == f.1 && rl.0 == l.0
                && rl.1 == l.1,
            Err(e) => r == Err::<((i64, i64), (i64, i64)), TimeError>(e),
        },
{
    if is_absolute_moment(first) {
        match resolve_moment(first, c, c.now, c.past) {
            Err(e) => Err(e),
            Ok(f) => match resolve_moment(last, c, f.0, false) {
                Err(e) => Err(e),
                Ok(l) => Ok((f, l)),
            },
        }
    } else {
        match resolve_moment(last, c, c.now, c.past) {
            Err(e) => Err(e),
            Ok(l) => match resolve_moment(first, c, l.0, true) {
                Err(e) => Err(e),
                Ok(f) => Ok((f, l)),
            },
        }
    }
}

/// The interval of an expression against a context, and whether the expression
/// named two moments.
pub fn resolve(e: &Expr, c: &Context) -> (r: Result<(i64, i64, bool), TimeError>)
    requires
        e.wf(),
        c.wf(),
    ensures
        agrees3(r, expr_spec(*e, *c)),
{
    proof {
        reveal(expr_spec);
    }
    let n = c.now;
    match e {
        Expr::Universal => {
            let lo: i64 = MIN_DAY * DAY_MS;
            let hi: i64 = (MAX_DAY + 1) * DAY_MS - 1;
            Ok((lo, hi, false))
        },
        Expr::Single(m) => match resolve_moment(m, c, n, c.past) {
            Ok((s, t)) => Ok((s, t, false)),
            Err(x) => Err(x),
        },
        Expr::Since(m) => match resolve_moment(m, c, n, c.past) {
            Ok((s, _)) => if s > n {
                Err(
                    TimeError::Misordered(
                        Instants { first: Timestamp { millis: s }, last: Timestamp { millis: n } },
                    ),
                )
            } else {
                Ok((s, n, false))
            },
            Err(x) => Err(x),
        },
        Expr::Range { first, last, inclusive } => match resolve_range(first, last, c) {
            Err(x) => Err(x),
            Ok((f, l)) => if f.0 > l.0 {
                Err(
                    TimeError::Misordered(
                        Instants {
                            first: Timestamp { millis: f.0 },
                            last: Timestamp { millis: l.0 },
                        },
                    ),
                )
            } else {
                Ok(
                    (f.0, if *inclusive {
                        l.1
                    } else {
                        l.0
                    }, true),
                )
            },
        },
    }
}


/// Resolution fails only for reasons of the calendar and the context, never for
/// the text: no resolved moment is `Unparsable`.
pub proof fn lemma_moment_parsed(m: Moment, c: Context, a: int, past: bool)
    ensures
        !(moment_spec(m, c, a, past) matches Err(TimeError::Unparsable(_))),
    decreases m,
{
    match m {
        Moment::Displaced { base, .. } => lemma_moment_parsed(*base, c, c.now as int, c.past),
        Moment::StartOf { base } => lemma_moment_parsed(*base, c, a, past),
        Moment::EndOf { base } => lemma_moment_parsed(*base, c, a, past),
        _ => {},
    }
}

/// No resolved expression is `Unparsable`.
pub proof fn lemma_expr_parsed(e: Expr, c: Context)
    ensures
        !(expr_spec(e, c) matches Err(TimeError::Unparsable(_))),
{
    reveal(expr_spec);
    let n = c.now as int;
    match e {
        Expr::Single(m) => lemma_moment_parsed(m, c, n, c.past),
        Expr::Since(m) => lemma_moment_parsed(m, c, n, c.past),
        Expr::Range { first, last, .. } => {
            lemma_moment_parsed(first, c, n, c.past);
            lemma_moment_parsed(last, c, n, c.past);
            if let Ok(f) = moment_spec(first, c, n, c.past) {
                lemma_moment_parsed(last, c, f.0, false);
            }
            if let Ok(l) = moment_spec(last, c, n, c.past) {
                lemma_moment_parsed(first, c, l.0, true);
            }
        },
        Expr::Universal => {},
    }
}

} // verus!
