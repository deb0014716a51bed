//! Expanding a moment to the calendar period that contains it.
use vstd::prelude::*;
use crate::calendar::{
    civil_from_days, day_of, day_to_date, floor_div, max_instant, min_instant, Timestamp, DAY_MS,
    HOUR_MS, MINUTE_MS, SECOND_MS,
};
use crate::resolve::{
    lemma_day_of_bounds, month_interval, month_spec, week_start, within_range, year_interval,
    year_spec, TimeError, agrees,
};

verus! {

/// A kind of calendar period.
#[derive(Clone, Copy, Debug, PartialEq, Eq, Structural)]
pub enum Period {
    Year,
    Month,
    /// A week from Monday.
    Week,
    /// A week from Sunday.
    WeekStartingSunday,
    Day,
    Hour,
    Minute,
    Second,
}

/// The start of the unit-long stretch, counted from instant 0, that holds `t`.
pub open spec fn floor_to(t: int, unit: int) -> int {
    (t / unit) * unit
}

/// The period of kind `p` that holds instant `t`.
pub open spec fn containing_period(t: int, p: Period) -> Result<(int, int), TimeError> {
    let d = day_of(t);
    match p {
        Period::Year => year_spec(civil_from_days(d).0),
        Period::Month => month_spec(civil_from_days(d).0, civil_from_days(d).1),
        Period::Week => within_range(week_start(d, true) * DAY_MS, (week_start(d, true) + 7) * DAY_MS),
        Period::WeekStartingSunday => within_range(
            week_start(d, false) * DAY_MS,
            (week_start(d, false) + 7) * DAY_MS,
        ),
        Period::Day => within_range(d * DAY_MS, (d + 1) * DAY_MS),
        Period::Hour => within_range(floor_to(t, HOUR_MS as int), floor_to(t, HOUR_MS as int) + HOUR_MS),
        Period::Minute => within_range(
            floor_to(t, MINUTE_MS as int),
            floor_to(t, MINUTE_MS as int) + MINUTE_MS,
        ),
        Period::Second => within_range(
            floor_to(t, SECOND_MS as int),
            floor_to(t, SECOND_MS as int) + SECOND_MS,
        ),
    }
}

fn floor_to_unit(t: i64, unit: i64) -> (r: i64)
    requires
        min_instant() <= t <= max_instant(),
        unit == HOUR_MS || unit == MINUTE_MS || unit == SECOND_MS || unit == DAY_MS,
    ensures
        r == floor_to(t as int, unit as int),
        t - unit < r <= t,
{
    let per_day: i64 = DAY_MS / unit;
    let c: i64 = crate::calendar::MIN_DAY * per_day;
    assert(c * unit == crate::calendar::MIN_DAY * DAY_MS) by {
        assert(per_day * unit == DAY_MS);
        vstd::arithmetic::mul::lemma_mul_is_associative(
            crate::calendar::MIN_DAY as int,
            per_day as int,
            unit as int,
        );
    }
    let x: i64 = t - c * unit;
    let q: i64 = x / unit;
    proof {
        vstd::arithmetic::div_mod::lemma_fundamental_div_mod(x as int, unit as int);
        vstd::arithmetic::div_mod::lemma_mod_bound(x as int, unit as int);
        assert(t == (q + c) * unit + x % unit) by (nonlinear_arith)
            requires
                x == t - c * unit,
                x == unit * (x / unit) + x % unit,
                q == x / unit,
        ;
        vstd::arithmetic::div_mod::lemma_fundamental_div_mod_converse(
            t as int,
            unit as int,
            q + c,
            x as int % unit as int,
        );
    }
    (q + c) * unit
}

/// The period of kind `p` that holds the instant `t`: `Err(OutOfRange)` where
/// it reaches outside the calendar's range.
pub fn moment_to_period(t: Timestamp, p: Period) -> (r: Result<(Timestamp, Timestamp), TimeError>)
    ensures
        min_instant() <= t.millis <= max_instant() ==> match containing_period(t.millis as int, p) {
            Ok((s, e)) => r == Ok::<(Timestamp, Timestamp), TimeError>(
                (Timestamp { millis: s as i64 }, Timestamp { millis: e as i64 }),
            ),
            Err(x) => r == Err::<(Timestamp, Timestamp), TimeError>(x),
        },
        !(min_instant() <= t.millis <= max_instant()) ==> r == Err::<
            (Timestamp, Timestamp),
            TimeError,
        >(TimeError::OutOfRange),
{
    let lo: i64 = crate::calendar::MIN_DAY * DAY_MS;
    let hi: i64 = (crate::calendar::MAX_DAY + 1) * DAY_MS - 1;
    if t.millis < lo || t.millis > hi {
        return Err(TimeError::OutOfRange);
    }
    proof {
        lemma_day_of_bounds(t.millis as int);
    }
    let d = floor_div(t.millis, DAY_MS);
    let r = match p {
        Period::Year => match day_to_date(d) {
            Some((y, _, _)) => year_interval(y as i64),
            None => Err(TimeError::OutOfRange),
        },
        Period::Month => match day_to_date(d) {
            Some((y, m, _)) => month_interval(y as i64, m),
            None => Err(TimeError::OutOfRange),
        },
        Period::Week => {
            let w = crate::calendar::weekday_of_day(d);
            let s = d - w;
            check(s * DAY_MS, (s + 7) * DAY_MS)
        },
        Period::WeekStartingSunday => {
            let w = crate::calendar::weekday_of_day(d);
            let s = d - (w + 1) % 7;
            check(s * DAY_MS, (s + 7) * DAY_MS)
        },
        Period::Day => check(d * DAY_MS, (d + 1) * DAY_MS),
        Period::Hour => {
            let s = floor_to_unit(t.millis, HOUR_MS);
            check(s, s + HOUR_MS)
        },
        Period::Minute => {
            let s = floor_to_unit(t.millis, MINUTE_MS);
            check(s, s + MINUTE_MS)
        },
        Period::Second => {
            let s = floor_to_unit(t.millis, SECOND_MS);
            check(s, s + SECOND_MS)
        },
    };
    match r {
        Ok((s, e)) => Ok((Timestamp { millis: s }, Timestamp { millis: e })),
        Err(x) => Err(x),
    }
}

fn check(s: i64, e: i64) -> (r: Result<(i64, i64), TimeError>)
    ensures
        agrees(r, within_range(s as int, e as int)),
{
    let lo: i64 = crate::calendar::MIN_DAY * DAY_MS;
    let hi: i64 = (crate::calendar::MAX_DAY + 1) * DAY_MS;
    if lo <= s && s <= hi && lo <= e && e <= hi {
        Ok((s, e))
    } else {
        Err(TimeError::OutOfRange)
    }
}

} // verus!
