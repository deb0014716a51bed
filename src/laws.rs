//! Laws of resolution, proved over the specifications of the engine.
use vstd::prelude::*;
use vstd::arithmetic::div_mod::{
    lemma_fundamental_div_mod, lemma_fundamental_div_mod_converse, lemma_mod_bound,
};
use vstd::arithmetic::mul::{lemma_mul_inequality, lemma_mul_nonnegative};
use crate::calendar::{
    civil_from_days, day_number, day_of, lemma_day_in_year, lemma_days_before_month_monotonic,
    lemma_days_before_year_monotonic,
    max_instant, min_instant, DAY_MS, HOUR_MS, MINUTE_MS, SECOND_MS,
};
use crate::expr::{DaySpec, Expr, Moment, Placement, TimeOfDay, Unit, YearSpec};
use crate::grammar::{expression_s, universal_s};
use crate::lexer::Token;
use crate::resolve::{
    dated_year, day_value, month_day_year, expr_spec, latest_reading, lemma_day_of_bounds, month_spec, moment_spec,
    pay_period_start, unit_length, year_value, Context, TimeError,
};

verus! {

/// "Always", "forever" and the other names of all time stand for the whole range
/// of timestamps, from its first instant to its last millisecond, whatever the context.
pub proof fn lemma_universal_is_all_time(c: Context)
    ensures
        expr_spec(Expr::Universal, c) == Ok::<(int, int, bool), TimeError>(
            (min_instant(), max_instant(), false),
        ),
{
    reveal(expr_spec);
}

/// A phrase whose tokens are a name of all time ("always", "ever", "all time",
/// "forever", "from beginning to end", "from the beginning to the end") is read
/// as all of time, and so stands for the whole range of timestamps.
pub proof fn lemma_universal_phrases(t: Seq<Token>, c: Context)
    requires
        universal_s(t, 0, t.len() as int),
    ensures
        expression_s(t) == Some(Expr::Universal),
        expr_spec(Expr::Universal, c) == Ok::<(int, int, bool), TimeError>(
            (min_instant(), max_instant(), false),
        ),
{
    lemma_universal_is_all_time(c);
}

/// The width of the interval of a date is its granularity: one second where
/// seconds are given, one minute where minutes are the finest part given, one
/// hour for an hour alone, and one day without a time of day.
pub proof fn lemma_granularity(
    year: YearSpec,
    month: u8,
    day: DaySpec,
    weekday: Option<u8>,
    time: Option<TimeOfDay>,
    c: Context,
    a: int,
    past: bool,
)
    ensures
        moment_spec(Moment::Date { year, month, day, weekday, time }, c, a, past) matches Ok(
            (s, e),
        ) ==> e - s == match time {
            Some(t) => if t.second is Some {
                SECOND_MS as int
            } else if t.minute is Some {
                MINUTE_MS as int
            } else {
                HOUR_MS as int
            },
            None => DAY_MS as int,
        },
{
}

/// A year written with two digits reads, when the past is preferred, as the
/// latest year with those digits that is not after the present year, and
/// otherwise as the century after it.
pub proof fn lemma_latest_reading(digits: u8, now_year: int)
    requires
        digits < 100,
    ensures
        ({
            let latest = year_value(YearSpec::Short { digits }, now_year, true);
            &&& year_value(YearSpec::Short { digits }, now_year, false) == latest + 100
            &&& now_year - 100 < latest <= now_year
            &&& latest % 100 == digits as int
        }),
{
    let x = now_year - digits;
    lemma_mod_bound(x, 100);
    lemma_fundamental_div_mod(x, 100);
    let p = now_year - x % 100;
    assert(p == 100 * (x / 100) + digits);
    lemma_fundamental_div_mod_converse(p, 100, x / 100, digits as int);
}

/// A month with a two-digit year ("May '69") is, when the past is preferred,
/// the reading that starts no later than now, and otherwise the reading that
/// starts after now; where the latest reading lies in the calendar's range, the
/// two readings are exactly a century apart.
pub proof fn lemma_century_inference(digits: u8, month: u8, c: Context, a: int, past: bool)
    requires
        digits < 100,
        1 <= month <= 12,
        c.wf(),
    ensures
        ({
            let y = YearSpec::Short { digits };
            let m = Moment::MonthOfYear { year: y, month };
            let n = c.now as int;
            let ny = civil_from_days(day_of(n)).0;
            let at = month_spec(latest_reading(y, ny), month as int);
            &&& (at is Ok ==> dated_year(y, ny, n, false, at) == dated_year(y, ny, n, true, at)
                + 100)
            &&& (moment_spec(m, Context { past: true, ..c }, a, past) matches Ok((s, _)) ==> s
                <= n)
            &&& (moment_spec(m, Context { past: false, ..c }, a, past) matches Ok((s, _)) ==> s
                > n)
        }),
{
    let y = YearSpec::Short { digits };
    let n = c.now as int;
    let nd = day_of(n);
    let (ny, nm, ndd) = civil_from_days(nd);
    lemma_latest_reading(digits, ny);
    lemma_day_of_bounds(n);
    lemma_day_in_year(ny, nm, ndd);
    let latest = latest_reading(y, ny);
    let at = month_spec(latest, month as int);
    let cp = Context { past: true, ..c };
    let cf = Context { past: false, ..c };
    if let Ok((s, _)) = moment_spec(Moment::MonthOfYear { year: y, month }, cp, a, past) {
        let yp = dated_year(y, ny, n, true, at);
        if yp != latest {
            let dn = day_number(yp, month as int, 1);
            lemma_day_in_year(yp, month as int, 1);
            lemma_days_before_year_monotonic(yp + 1, ny);
            assert(dn <= nd - 1);
            lemma_mul_inequality(dn, nd - 1, DAY_MS as int);
        }
    }
    if let Ok((s, _)) = moment_spec(Moment::MonthOfYear { year: y, month }, cf, a, past) {
        let yf = dated_year(y, ny, n, false, at);
        if yf != latest {
            let dn = day_number(yf, month as int, 1);
            lemma_day_in_year(yf, month as int, 1);
            lemma_days_before_year_monotonic(ny + 1, yf);
            assert(dn >= nd + 1);
            lemma_mul_inequality(nd + 1, dn, DAY_MS as int);
        }
    }
}

/// A month and day named without a year ("May 20") is, when the past is
/// preferred, their latest occurrence on or before today, and otherwise their
/// first occurrence after today.
pub proof fn lemma_month_day_side(month: u8, day: DaySpec, c: Context)
    requires
        1 <= month <= 12,
        c.wf(),
    ensures
        ({
            let m = Moment::MonthDay { month, day };
            let n = c.now as int;
            &&& (moment_spec(m, c, n, true) matches Ok((s, _)) ==> s <= n)
            &&& (moment_spec(m, c, n, false) matches Ok((s, _)) ==> s > n)
        }),
{
    let n = c.now as int;
    let nd = day_of(n);
    let (ay, am, ad) = civil_from_days(nd);
    lemma_day_of_bounds(n);
    lemma_day_in_year(ay, am, ad);
    let mm = month as int;
    let d = day_value(day, mm);
    let m = Moment::MonthDay { month, day };
    if let Ok((s, _)) = moment_spec(m, c, n, true) {
        let y = month_day_year(mm, d, ay, am, ad, true);
        let dn = day_number(y, mm, d);
        lemma_day_in_year(y, mm, d);
        if y == ay {
            if mm < am {
                lemma_days_before_month_monotonic(ay, mm, am);
            }
        }
        assert(dn <= nd);
        lemma_mul_inequality(dn, nd, DAY_MS as int);
    }
    if let Ok((s, _)) = moment_spec(m, c, n, false) {
        let y = month_day_year(mm, d, ay, am, ad, false);
        let dn = day_number(y, mm, d);
        lemma_day_in_year(y, mm, d);
        if y == ay {
            if am < mm {
                lemma_days_before_month_monotonic(ay, am, mm);
            }
        }
        assert(dn >= nd + 1);
        lemma_mul_inequality(nd + 1, dn, DAY_MS as int);
    }
}

/// The pay period that holds a day does not depend on which period's first
/// day is given as the reference, before or after that day: moving the
/// reference by whole periods changes nothing. The period holds the day.
pub proof fn lemma_pay_period_anchor_free(n: int, start: int, length: int, k: int)
    requires
        length > 0,
    ensures
        pay_period_start(n, start + k * length, length) == pay_period_start(n, start, length),
        pay_period_start(n, start, length) <= n < pay_period_start(n, start, length) + length,
{
    let x = n - start;
    lemma_fundamental_div_mod(x, length);
    lemma_mod_bound(x, length);
    let q = x / length;
    let r = x % length;
    assert(n - (start + k * length) == (q - k) * length + r) by (nonlinear_arith)
        requires
            x == n - start,
            x == length * q + r,
    ;
    lemma_fundamental_div_mod_converse(n - (start + k * length), length, q - k, r);
    assert(start + k * length + (q - k) * length == start + q * length) by (nonlinear_arith);
    assert(start + q * length == n - r) by (nonlinear_arith)
        requires
            x == n - start,
            x == length * q + r,
    ;
}

/// "Before and after" a moment spans the same time on both sides of its start,
/// and "around" a moment spans exactly the count of units.
pub proof fn lemma_displacement_symmetry(
    count: u32,
    unit: Unit,
    placement: Placement,
    base: Moment,
    c: Context,
    a: int,
    past: bool,
)
    ensures
        ({
            let m = Moment::Displaced { count, unit, placement, base: Box::new(base) };
            let k = count * unit_length(unit);
            match (moment_spec(m, c, a, past), moment_spec(base, c, c.now as int, c.past)) {
                (Ok((s, e)), Ok((b, _))) => (placement is BeforeAndAfter ==> b - s == e - b
                    && e - s == 2 * k) && (placement is Around ==> e - s == k),
                _ => true,
            }
        }),
{
}

/// Every interval that a moment resolves to starts no later than it ends.
pub proof fn lemma_moment_ordered(m: Moment, c: Context, a: int, past: bool)
    ensures
        moment_spec(m, c, a, past) matches Ok((s, e)) ==> s <= e,
    decreases m,
{
    match m {
        Moment::Displaced { count, unit, placement, base } => {
            lemma_mul_nonnegative(count as int, unit_length(unit));
            lemma_moment_ordered(*base, c, c.now as int, c.past);
        },
        Moment::StartOf { base } => lemma_moment_ordered(*base, c, a, past),
        Moment::EndOf { base } => lemma_moment_ordered(*base, c, a, past),
        _ => {},
    }
}

/// Every resolved interval starts no later than it ends.
pub proof fn lemma_interval_ordered(e: Expr, c: Context)
    ensures
        expr_spec(e, c) matches Ok((s, t, _)) ==> s <= t,
{
    reveal(expr_spec);
    let n = c.now as int;
    match e {
        Expr::Single(m) => lemma_moment_ordered(m, c, n, c.past),
        Expr::Since(m) => lemma_moment_ordered(m, c, n, c.past),
        Expr::Range { first, last, .. } => {
            lemma_moment_ordered(first, c, n, c.past);
            lemma_moment_ordered(last, c, n, c.past);
            if let Ok(f) = moment_spec(first, c, n, c.past) {
                lemma_moment_ordered(last, c, f.0, false);
            }
            if let Ok(l) = moment_spec(last, c, n, c.past) {
                lemma_moment_ordered(first, c, l.0, true);
            }
        },
        Expr::Universal => {},
    }
}

/// "Since" a moment runs from its start to the present, and fails as misordered
/// exactly where that start lies after the present. It names one moment.
pub proof fn lemma_since_ends_now(m: Moment, c: Context)
    ensures
        match moment_spec(m, c, c.now as int, c.past) {
            Ok((s, _)) => if s > c.now {
                expr_spec(Expr::Since(m), c) matches Err(TimeError::Misordered(_))
            } else {
                expr_spec(Expr::Since(m), c) == Ok::<(int, int, bool), TimeError>(
                    (s, c.now as int, false),
                )
            },
            Err(x) => expr_spec(Expr::Since(m), c) == Err::<(int, int, bool), TimeError>(x),
        },
{
    reveal(expr_spec);
}

} // verus!
