//! Turns an English time expression ("next friday at 3pm", "since noon",
//! "the ides of March 2018") into a concrete interval of time, relative to a
//! present moment and a few conventions.
use vstd::prelude::*;

pub mod calendar;
pub mod expr;
pub mod lexer;
pub mod grammar;
pub mod resolve;
pub mod period;
pub mod laws;

pub use calendar::{Timestamp, DAY_MS, HOUR_MS, MINUTE_MS, SECOND_MS, WEEK_MS};
pub use resolve::{Instants, TimeError};
pub use period::{moment_to_period, Period};

use calendar::{day_of, day_to_date, floor_div, max_instant, min_instant, MAX_DAY, MIN_DAY};
use expr::Expr;
use vstd::string::StringSliceAdditionalSpecFns;
use resolve::{expr_spec, resolve, Context};

verus! {

/// The day number of January 1, 1970.
pub const UNIX_EPOCH_DAY: i64 = 719163;

/// The present moment and the conventions that a phrase is read with. Every
/// field can be set on its own; `Config::new` gives the defaults.
#[derive(Clone, Copy, Debug, PartialEq, Eq, Structural)]
pub struct Config {
    /// The present moment; the clock's when `None`.
    pub now: Option<Timestamp>,
    /// Whether an ambiguous moment ("Friday", "May", "3 pm") is its latest past
    /// occurrence rather than its next future one.
    pub default_to_past: bool,
    /// Whether weeks start on Monday rather than Sunday.
    pub monday_starts_week: bool,
    /// A day that starts a pay period (its time of day is ignored).
    pub pay_period_start: Option<Timestamp>,
    /// The length of a pay period in days.
    pub pay_period_length: Option<u32>,
}

pub open spec fn default_config() -> Config {
    Config {
        now: None,
        default_to_past: true,
        monday_starts_week: true,
        pay_period_start: None,
        pay_period_length: None,
    }
}

impl Config {
    /// The defaults: the clock's present, the past preferred, weeks from Monday,
    /// no pay period.
    pub fn new() -> (r: Config)
        ensures
            r == default_config(),
    {
        Config {
            now: None,
            default_to_past: true,
            monday_starts_week: true,
            pay_period_start: None,
            pay_period_length: None,
        }
    }

    pub fn now(self, now: Timestamp) -> (r: Config)
        ensures
            r == (Config { now: Some(now), ..self }),
    {
        Config { now: Some(now), ..self }
    }

    pub fn default_to_past(self, past: bool) -> (r: Config)
        ensures
            r == (Config { default_to_past: past, ..self }),
    {
        Config { default_to_past: past, ..self }
    }

    pub fn monday_starts_week(self, monday: bool) -> (r: Config)
        ensures
            r == (Config { monday_starts_week: monday, ..self }),
    {
        Config { monday_starts_week: monday, ..self }
    }

    pub fn pay_period_start(self, start: Option<Timestamp>) -> (r: Config)
        ensures
            r == (Config { pay_period_start: start, ..self }),
    {
        Config { pay_period_start: start, ..self }
    }

    pub fn pay_period_length(self, days: u32) -> (r: Config)
        ensures
            r == (Config { pay_period_length: Some(days), ..self }),
    {
        Config { pay_period_length: Some(days), ..self }
    }
}

/// The context that a configuration gives, with `now` as the present.
pub open spec fn context_of(c: Config, now: int) -> Context {
    Context {
        now: now as i64,
        past: c.default_to_past,
        monday_starts_week: c.monday_starts_week,
        pay_start: match c.pay_period_start {
            Some(t) => Some(day_of(t.millis as int) as i64),
            None => None,
        },
        pay_length: match c.pay_period_length {
            Some(n) => n,
            None => 0,
        },
    }
}

/// Whether the instants of a configuration lie in the calendar's range.
pub open spec fn config_in_range(c: Config, now: int) -> bool {
    &&& min_instant() <= now <= max_instant()
    &&& c.pay_period_start matches Some(t) ==> min_instant() <= t.millis <= max_instant()
}

/// Whether `r` is the spec result `s` in timestamps.
pub open spec fn stamped(
    r: Result<(Timestamp, Timestamp, bool), TimeError>,
    s: Result<(int, int, bool), TimeError>,
) -> bool {
    match s {
        Ok((a, b, t)) => r == Ok::<(Timestamp, Timestamp, bool), TimeError>(
            (Timestamp { millis: a as i64 }, Timestamp { millis: b as i64 }, t),
        ),
        Err(e) => r == Err::<(Timestamp, Timestamp, bool), TimeError>(e),
    }
}

/// Whether `r` is what expression `e` gives, read with `config` (or the
/// defaults) and with `now` as the present where the configuration names none.
pub open spec fn read_as(
    r: Result<(Timestamp, Timestamp, bool), TimeError>,
    config: Option<Config>,
    e: Expr,
    now: Timestamp,
) -> bool {
    let c = match config {
        Some(c) => c,
        None => default_config(),
    };
    &&& e.wf()
    &&& (c.now matches Some(n) ==> now == n)
    &&& (c.now is None ==> min_instant() <= now.millis <= max_instant())
    &&& stamped(r, outcome(e, c, now.millis as int))
}

/// What expression `e` gives with configuration `c` and the present `now`: all
/// of time for `Expr::Universal`, whatever the configuration; otherwise its
/// interval where the configuration's instants lie in the calendar's range,
/// and `OutOfRange` where they do not.
pub open spec fn outcome(e: Expr, c: Config, now: int) -> Result<(int, int, bool), TimeError> {
    if e is Universal || config_in_range(c, now) {
        expr_spec(e, context_of(c, now))
    } else {
        Err(TimeError::OutOfRange)
    }
}

/// Relies on std's `SystemTime::elapsed`, called on `UNIX_EPOCH`: the time
/// from 1970-01-01T00:00:00 to the system clock's present, in milliseconds, or
/// `None` where the clock reads earlier than that (an error, never a panic).
/// Nothing is promised of its value.
#[verifier::external_body]
fn clock_unix_millis() -> (r: Option<u128>) {
    match std::time::UNIX_EPOCH.elapsed() {
        Ok(elapsed) => Some(elapsed.as_millis()),
        Err(_) => None,
    }
}

/// The timestamp of `unix` milliseconds since 1970-01-01T00:00:00, or `None`
/// where it lies outside the calendar's range.
pub fn timestamp_from_unix_millis(unix: i64) -> (r: Option<Timestamp>)
    ensures
        r == (if min_instant() <= unix + UNIX_EPOCH_DAY * DAY_MS <= max_instant() {
            Some(Timestamp { millis: (unix + UNIX_EPOCH_DAY * DAY_MS) as i64 })
        } else {
            None::<Timestamp>
        }),
{
    let offset: i64 = UNIX_EPOCH_DAY * DAY_MS;
    let lo: i64 = MIN_DAY * DAY_MS;
    let hi: i64 = (MAX_DAY + 1) * DAY_MS - 1;
    if unix < lo - offset || unix > hi - offset {
        return None;
    }
    Some(Timestamp { millis: unix + offset })
}

/// The timestamp of a clock reading: milliseconds since 1970-01-01T00:00:00,
/// or `None` for a clock that could not be read. `None` where there is no
/// reading or it lies beyond the calendar's range.
pub fn timestamp_from_clock(reading: Option<u128>) -> (r: Option<Timestamp>)
    ensures
        r == (match reading {
            Some(ms) => if ms + UNIX_EPOCH_DAY * DAY_MS <= max_instant() {
                Some(Timestamp { millis: (ms + UNIX_EPOCH_DAY * DAY_MS) as i64 })
            } else {
                None::<Timestamp>
            },
            None => None::<Timestamp>,
        }),
{
    match reading {
        Some(ms) => {
            let hi: i64 = (MAX_DAY + 1 - UNIX_EPOCH_DAY) * DAY_MS - 1;
            if ms > hi as u128 {
                None
            } else {
                timestamp_from_unix_millis(ms as i64)
            }
        },
        None => None,
    }
}

/// The present moment by the system clock, or `None` where the clock reads
/// before 1970 or beyond the calendar's range.
pub fn clock_now() -> (r: Option<Timestamp>)
    ensures
        r matches Some(t) ==> min_instant() <= t.millis <= max_instant(),
{
    timestamp_from_clock(clock_unix_millis())
}

/// Whether a configuration leaves the present to the clock.
pub open spec fn uses_clock(config: Option<Config>) -> bool {
    match config {
        Some(c) => c.now is None,
        None => true,
    }
}

/// The context of a configuration with the present `now`, or `None` where an
/// instant of it lies outside the calendar's range.
pub fn context(c: &Config, now: Timestamp) -> (r: Option<Context>)
    ensures
        r matches Some(x) ==> x == context_of(*c, now.millis as int) && x.wf(),
        r is Some <==> config_in_range(*c, now.millis as int),
{
    let lo: i64 = MIN_DAY * DAY_MS;
    let hi: i64 = (MAX_DAY + 1) * DAY_MS - 1;
    if now.millis < lo || now.millis > hi {
        return None;
    }
    let pay_start = match c.pay_period_start {
        Some(t) => {
            if t.millis < lo || t.millis > hi {
                return None;
            }
            proof {
                resolve::lemma_day_of_bounds(t.millis as int);
            }
            Some(floor_div(t.millis, DAY_MS))
        },
        None => None,
    };
    let pay_length = match c.pay_period_length {
        Some(n) => n,
        None => 0,
    };
    proof {
        resolve::lemma_day_of_bounds(now.millis as int);
    }
    if day_to_date(floor_div(now.millis, DAY_MS)).is_none() {
        return None;
    }
    Some(
        Context {
            now: now.millis,
            past: c.default_to_past,
            monday_starts_week: c.monday_starts_week,
            pay_start,
            pay_length,
        },
    )
}

/// The expression tree of a phrase: its tokens (`lexer::tokens_of`) read by the
/// grammar (`grammar::expression_s`); `None` where it is no time expression.
pub open spec fn recognized(phrase: Seq<u8>) -> Option<Expr> {
    match lexer::tokens_of(phrase) {
        Some(t) => grammar::expression_s(t),
        None => None,
    }
}

/// The expression tree of a phrase, if it is a time expression.
pub fn recognize(phrase: &str) -> (r: Option<Expr>)
    ensures
        r == recognized(phrase.spec_bytes()),
        r matches Some(e) ==> e.wf(),
{
    match lexer::tokenize(phrase.as_bytes()) {
        None => None,
        Some(tokens) => grammar::expression(&tokens),
    }
}

/// The interval of an expression, read with a configuration whose present is `now`.
pub fn interval(e: &Expr, c: &Config, now: Timestamp) -> (r: Result<
    (Timestamp, Timestamp, bool),
    TimeError,
>)
    requires
        e.wf(),
    ensures
        stamped(r, outcome(*e, *c, now.millis as int)),
{
    if let Expr::Universal = e {
        proof {
            laws::lemma_universal_is_all_time(context_of(*c, now.millis as int));
        }
        return Ok((Timestamp::first(), Timestamp::last(), false));
    }
    match context(c, now) {
        None => Err(TimeError::OutOfRange),
        Some(ctx) => match resolve(e, &ctx) {
            Ok((s, t, two)) => Ok((Timestamp { millis: s }, Timestamp { millis: t }, two)),
            Err(x) => Err(x),
        },
    }
}

/// Parses a time expression and resolves it to `(start, end, two_sided)`: the
/// interval it denotes, and whether it named two moments ("X through Y"). An
/// unrecognized phrase gives `TimeError::Unparsable` with the phrase; without a
/// configuration, or without `now` in it, the present is the clock's.
pub fn parse(phrase: &str, config: Option<Config>) -> (r: Result<
    (Timestamp, Timestamp, bool),
    TimeError,
>)
    ensures
        match recognized(phrase.spec_bytes()) {
            None => r matches Err(TimeError::Unparsable(s)) && s@ == phrase@,
            Some(e) => (exists|now: Timestamp| #[trigger] read_as(r, config, e, now)) || (
            uses_clock(config) && !(e is Universal) && r == Err::<
                (Timestamp, Timestamp, bool),
                TimeError,
            >(TimeError::ClockUnavailable)),
        },
        recognized(phrase.spec_bytes()) == Some(Expr::Universal) ==> r == Ok::<
            (Timestamp, Timestamp, bool),
            TimeError,
        >(
            (
                Timestamp { millis: min_instant() as i64 },
                Timestamp { millis: max_instant() as i64 },
                false,
            ),
        ),
{
    let c = match config {
        Some(c) => c,
        None => Config::new(),
    };
    let e = match recognize(phrase) {
        Some(e) => e,
        None => {
            return Err(TimeError::Unparsable(phrase.to_owned()));
        },
    };
    let now = match c.now {
        Some(n) => n,
        None => if let Expr::Universal = e {
            Timestamp::first()
        } else {
            match clock_now() {
                Some(n) => n,
                None => {
                    return Err(TimeError::ClockUnavailable);
                },
            }
        },
    };
    let r = interval(&e, &c, now);
    proof {
        resolve::lemma_expr_parsed(e, context_of(c, now.millis as int));
        laws::lemma_universal_is_all_time(context_of(c, now.millis as int));
    }
    assert(read_as(r, config, e, now));
    r
}

/// Whether expression `e`, read with the defaults and the present `now`, has an interval.
pub open spec fn resolves(e: Expr, now: Timestamp) -> bool {
    outcome(e, default_config(), now.millis as int) is Ok
}

/// Whether `parse` gives an interval for the phrase, with the defaults: the
/// phrase is a time expression whose interval exists at the clock's present
/// (and `false` where the clock cannot be read).
pub fn parsable(phrase: &str) -> (r: bool)
    ensures
        match recognized(phrase.spec_bytes()) {
            None => !r,
            Some(e) => (exists|now: Timestamp|
                min_instant() <= now.millis <= max_instant() && #[trigger] resolves(e, now) == r)
                || (!r && !(e is Universal)),
        },
{
    let result = parse(phrase, None);
    let r = result.is_ok();
    proof {
        if let Some(e) = recognized(phrase.spec_bytes()) {
            if exists|now: Timestamp| #[trigger] read_as(result, None, e, now) {
                let now = choose|now: Timestamp| #[trigger] read_as(result, None, e, now);
                assert(min_instant() <= now.millis <= max_instant());
                assert(resolves(e, now) == r);
            }
        }
    }
    r
}

} // verus!
