//! The expression tree: which construction a time expression is, with its parts.
use vstd::prelude::*;

verus! {

/// The modifier of a period keyword: "this", "next" or "last".
#[derive(Clone, Copy, Debug, PartialEq, Eq, Structural)]
pub enum Relation {
    This,
    Next,
    Last,
}

/// A unit of displacement.
#[derive(Clone, Copy, Debug, PartialEq, Eq, Structural)]
pub enum Unit {
    Second,
    Minute,
    Hour,
    Day,
    Week,
}

/// A recurring period that "this", "next" and "last" pick an instance of.
#[derive(Clone, Copy, Debug, PartialEq, Eq, Structural)]
pub enum Span {
    Week,
    Weekend,
    Month,
    Year,
    PayPeriod,
}

/// How a displacement stands to the moment it is counted from.
#[derive(Clone, Copy, Debug, PartialEq, Eq, Structural)]
pub enum Placement {
    Before,
    After,
    BeforeAndAfter,
    Around,
}

/// A time of day. `hour` runs from 0 to 24, where 24 is the midnight that ends
/// the day. The finest field given is the granularity of the moment.
#[derive(Clone, Copy, Debug, PartialEq, Eq, Structural)]
pub struct TimeOfDay {
    pub hour: u8,
    pub minute: Option<u8>,
    pub second: Option<u8>,
}

/// A year as written: in full (with its era), or by its last two digits.
#[derive(Clone, Copy, Debug, PartialEq, Eq, Structural)]
pub enum YearSpec {
    Full { value: u32, bc: bool },
    Short { digits: u8 },
}

/// A day of the month: a number, or one of the Roman kalends, nones and ides.
#[derive(Clone, Copy, Debug, PartialEq, Eq, Structural)]
pub enum DaySpec {
    Num(u8),
    Kalends,
    Nones,
    Ides,
}

/// A point-like reference to time. Weekdays are numbered 0 (Monday) to
/// 6 (Sunday), months 1 to 12.
#[derive(Debug, PartialEq, Eq)]
pub enum Moment {
    Now,
    /// The first moment of time.
    Beginning,
    /// The last moment of time.
    End,
    /// A calendar date with its year, perhaps with a weekday to check and a time.
    Date {
        year: YearSpec,
        month: u8,
        day: DaySpec,
        weekday: Option<u8>,
        time: Option<TimeOfDay>,
    },
    /// A whole month of a given year.
    MonthOfYear { year: YearSpec, month: u8 },
    /// A whole year.
    Year { year: YearSpec },
    /// Today (0), tomorrow (1) or yesterday (-1), perhaps at a time.
    DayAdverb { offset: i8, time: Option<TimeOfDay> },
    /// A time of day on no stated day.
    TimeOnly { time: TimeOfDay },
    /// This, next or last week, weekend, month, year or pay period.
    Period { relation: Relation, span: Span },
    /// A named month, with or without a modifier.
    NamedMonth { relation: Option<Relation>, month: u8 },
    /// A named weekday, with or without a modifier, perhaps at a time.
    NamedWeekday { relation: Option<Relation>, weekday: u8, time: Option<TimeOfDay> },
    /// A month and day with no year.
    MonthDay { month: u8, day: DaySpec },
    /// A day of the month with no month, perhaps with a weekday it must fall on.
    DayOfMonth { day: u8, weekday: Option<u8> },
    /// A count of units before ("ago") or after ("from now") the present.
    FromNow { count: u32, unit: Unit, forward: bool },
    /// A count of units placed against another moment: before its start, after
    /// its end, on both sides of its start, or centred on its start.
    Displaced { count: u32, unit: Unit, placement: Placement, base: Box<Moment> },
    /// The start of another moment.
    StartOf { base: Box<Moment> },
    /// The end of another moment.
    EndOf { base: Box<Moment> },
}

/// A whole time expression.
#[derive(Debug, PartialEq, Eq)]
pub enum Expr {
    /// All of time.
    Universal,
    /// One moment.
    Single(Moment),
    /// Two moments joined by "through" (inclusive) or "up to" (not inclusive).
    Range { first: Moment, last: Moment, inclusive: bool },
    /// "since" or "after" a moment, up to the present.
    Since(Moment),
}

/// The largest count a displacement may have.
pub const MAX_COUNT: u32 = 999_999_999;

/// The largest year that may be written in full.
pub const MAX_WRITTEN_YEAR: u32 = 9999;

impl TimeOfDay {
    pub open spec fn wf(self) -> bool {
        &&& self.hour <= 24
        &&& self.minute matches Some(m) ==> m < 60
        &&& self.second matches Some(s) ==> s < 60
        &&& self.second is Some ==> self.minute is Some
        &&& self.hour == 24 ==> (self.minute matches Some(m) ==> m == 0) && (
        self.second matches Some(s) ==> s == 0)
    }
}

pub open spec fn time_wf(t: Option<TimeOfDay>) -> bool {
    t matches Some(t) ==> t.wf()
}

impl YearSpec {
    pub open spec fn wf(self) -> bool {
        match self {
            YearSpec::Full { value, bc } => 1 <= value <= MAX_WRITTEN_YEAR,
            YearSpec::Short { digits } => digits < 100,
        }
    }
}

impl DaySpec {
    pub open spec fn wf(self) -> bool {
        self matches DaySpec::Num(d) ==> 1 <= d <= 31
    }
}

pub open spec fn month_wf(m: u8) -> bool {
    1 <= m <= 12
}

pub open spec fn weekday_wf(w: Option<u8>) -> bool {
    w matches Some(w) ==> w < 7
}

impl Moment {
    pub open spec fn wf(self) -> bool
        decreases self,
    {
        match self {
            Moment::Date { year, month, day, weekday, time } => year.wf() && month_wf(month)
                && day.wf() && weekday_wf(weekday) && time_wf(time),
            Moment::MonthOfYear { year, month } => year.wf() && month_wf(month),
            Moment::Year { year } => year.wf(),
            Moment::DayAdverb { offset, time } => -1 <= offset <= 1 && time_wf(time),
            Moment::TimeOnly { time } => time.wf(),
            Moment::NamedMonth { relation, month } => month_wf(month),
            Moment::NamedWeekday { relation, weekday, time } => weekday < 7 && time_wf(time),
            Moment::MonthDay { month, day } => month_wf(month) && day.wf(),
            Moment::DayOfMonth { day, weekday } => 1 <= day <= 31 && weekday_wf(weekday),
            Moment::FromNow { count, unit, forward } => count <= MAX_COUNT,
            Moment::Displaced { count, unit, placement, base } => count <= MAX_COUNT
                && base.wf(),
            Moment::StartOf { base } => base.wf(),
            Moment::EndOf { base } => base.wf(),
            _ => true,
        }
    }
}

impl Expr {
    pub open spec fn wf(self) -> bool {
        match self {
            Expr::Universal => true,
            Expr::Single(m) => m.wf(),
            Expr::Range { first, last, inclusive } => first.wf() && last.wf(),
            Expr::Since(m) => m.wf(),
        }
    }
}

} // verus!
