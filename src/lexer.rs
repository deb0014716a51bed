//! Splits a phrase into tokens: known words, numbers, single letters and punctuation.
use vstd::prelude::*;
use vstd::string::StringSliceAdditionalSpecFns;
use crate::expr::Unit;

verus! {

/// The words of the vocabulary. Weekdays count from 0 (Monday), months from 1.
#[derive(Clone, Copy, Debug, PartialEq, Eq, Structural)]
pub enum Kw {
    Weekday(u8),
    Month(u8),
    /// An ordinal word: "first" is 1.
    Ordinal(u8),
    /// A number word: "one" is 1, "twenty" is 20.
    Cardinal(u8),
    /// "st", "nd" or "rd" after a number.
    Suffix,
    /// "th": after a number, or Thursday.
    Th,
    /// A unit word in the plural ("seconds", "days"), or in the singular
    /// where it has no other sense ("minute", "day").
    Unit(Unit),
    The,
    Of,
    At,
    On,
    This,
    Next,
    Last,
    Weekend,
    MonthWord,
    YearWord,
    Pay,
    Period,
    PayPeriod,
    Now,
    Today,
    Tomorrow,
    Yesterday,
    Noon,
    Midnight,
    Ago,
    From,
    Before,
    After,
    And,
    Around,
    Since,
    Through,
    Up,
    To,
    Start,
    Beginning,
    End,
    Am,
    Pm,
    Bc,
    Ad,
    Kalends,
    Nones,
    Ides,
    An,
    Always,
    Ever,
    All,
    Time,
    Forever,
    Very,
    Moment,
    Instant,
    Dawn,
    Big,
    Bang,
    Birth,
    Universe,
    Eternity,
    Infinity,
    Doomsday,
    Crack,
    Doom,
    Armageddon,
    Ragnarok,
    Crunch,
    Heat,
    Death,
    Perdition,
    Hurrah,
    Syllable,
    Recorded,
}

/// A token of a phrase.
#[derive(Clone, Copy, Debug, PartialEq, Eq, Structural)]
pub enum Token {
    Word(Kw),
    /// A word of one letter, lower-cased, with whether it was written in upper case.
    Letter { ch: u8, upper: bool },
    /// A run of digits, its value and how many digits it had.
    Num { value: u64, digits: u8 },
    /// One of `,` `.` `/` `-` `:` `'`.
    Punct(u8),
}

/// The most digits a number may have.
pub const MAX_DIGITS: u8 = 12;

impl Kw {
    pub open spec fn wf(self) -> bool {
        match self {
            Kw::Weekday(w) => w < 7,
            Kw::Month(m) => 1 <= m <= 12,
            Kw::Ordinal(n) => 1 <= n <= 31,
            Kw::Cardinal(n) => 1 <= n <= 30,
            _ => true,
        }
    }
}

impl Token {
    pub open spec fn wf(self) -> bool {
        match self {
            Token::Word(k) => k.wf(),
            Token::Num { value, digits } => 1 <= digits <= MAX_DIGITS && value
                < 1_000_000_000_000,
            _ => true,
        }
    }
}

pub open spec fn tokens_wf(t: Seq<Token>) -> bool {
    forall|i: int| 0 <= i < t.len() ==> #[trigger] t[i].wf()
}

/// Whether the bytes of `w` are those of `lit`.
fn word_is(w: &Vec<u8>, lit: &str) -> (r: bool)
    ensures
        r == (w@ == lit.spec_bytes()),
{
    let b = lit.as_bytes();
    if w.len() != b.len() {
        return false;
    }
    let mut i: usize = 0;
    while i < w.len()
        invariant
            w@.len() == b@.len(),
            b@ == lit.spec_bytes(),
            i <= w@.len(),
            forall|j: int| 0 <= j < i ==> w@[j] == b@[j],
        decreases w@.len() - i,
    {
        if w[i] != b[i] {
            return false;
        }
        i = i + 1;
    }
    assert(w@ =~= b@);
    true
}

/// The weekday that a word names: its full name or an abbreviation.
pub open spec fn weekday_kw(w: Seq<u8>) -> Option<Kw> {
    if w == "monday".spec_bytes() || w == "mon".spec_bytes() || w == "mo".spec_bytes() {
        Some(Kw::Weekday(0))
    } else if w == "tuesday".spec_bytes() || w == "tues".spec_bytes() || w == "tue".spec_bytes() || w == "tu".spec_bytes() {
        Some(Kw::Weekday(1))
    } else if w == "wednesday".spec_bytes() || w == "weds".spec_bytes() || w == "wed".spec_bytes() || w == "we".spec_bytes() {
        Some(Kw::Weekday(2))
    } else if w == "thursday".spec_bytes() || w == "thurs".spec_bytes() || w == "thur".spec_bytes() || w == "thu".spec_bytes() {
        Some(Kw::Weekday(3))
    } else if w == "friday".spec_bytes() || w == "fri".spec_bytes() || w == "fr".spec_bytes() {
        Some(Kw::Weekday(4))
    } else if w == "saturday".spec_bytes() || w == "sat".spec_bytes() || w == "sa".spec_bytes() {
        Some(Kw::Weekday(5))
    } else if w == "sunday".spec_bytes() || w == "sun".spec_bytes() || w == "su".spec_bytes() {
        Some(Kw::Weekday(6))
    } else {
        None
    }
}

fn weekday_word(w: &Vec<u8>) -> (r: Option<Kw>)
    ensures
        r == weekday_kw(w@),
        r matches Some(k) ==> k.wf(),
{
    if word_is(w, "monday") || word_is(w, "mon") || word_is(w, "mo") {
        Some(Kw::Weekday(0))
    } else if word_is(w, "tuesday") || word_is(w, "tues") || word_is(w, "tue") || word_is(w, "tu") {
        Some(Kw::Weekday(1))
    } else if word_is(w, "wednesday") || word_is(w, "weds") || word_is(w, "wed") || word_is(w, "we") {
        Some(Kw::Weekday(2))
    } else if word_is(w, "thursday") || word_is(w, "thurs") || word_is(w, "thur") || word_is(
        w,
        "thu",
    ) {
        Some(Kw::Weekday(3))
    } else if word_is(w, "friday") || word_is(w, "fri") || word_is(w, "fr") {
        Some(Kw::Weekday(4))
    } else if word_is(w, "saturday") || word_is(w, "sat") || word_is(w, "sa") {
        Some(Kw::Weekday(5))
    } else if word_is(w, "sunday") || word_is(w, "sun") || word_is(w, "su") {
        Some(Kw::Weekday(6))
    } else {
        None
    }
}

/// The month that a word names: its full name or an abbreviation.
pub open spec fn month_kw(w: Seq<u8>) -> Option<Kw> {
    if w == "january".spec_bytes() || w == "jan".spec_bytes() {
        Some(Kw::Month(1))
    } else if w == "february".spec_bytes() || w == "feb".spec_bytes() {
        Some(Kw::Month(2))
    } else if w == "march".spec_bytes() || w == "mar".spec_bytes() {
        Some(Kw::Month(3))
    } else if w == "april".spec_bytes() || w == "apr".spec_bytes() {
        Some(Kw::Month(4))
    } else if w == "may".spec_bytes() {
        Some(Kw::Month(5))
    } else if w == "june".spec_bytes() || w == "jun".spec_bytes() {
        Some(Kw::Month(6))
    } else if w == "july".spec_bytes() || w == "jul".spec_bytes() {
        Some(Kw::Month(7))
    } else if w == "august".spec_bytes() || w == "aug".spec_bytes() {
        Some(Kw::Month(8))
    } else if w == "september".spec_bytes() || w == "sept".spec_bytes() || w == "sep".spec_bytes() {
        Some(Kw::Month(9))
    } else if w == "october".spec_bytes() || w == "oct".spec_bytes() {
        Some(Kw::Month(10))
    } else if w == "november".spec_bytes() || w == "nov".spec_bytes() {
        Some(Kw::Month(11))
    } else if w == "december".spec_bytes() || w == "dec".spec_bytes() {
        Some(Kw::Month(12))
    } else {
        None
    }
}

fn month_word(w: &Vec<u8>) -> (r: Option<Kw>)
    ensures
        r == month_kw(w@),
        r matches Some(k) ==> k.wf(),
{
    if word_is(w, "january") || word_is(w, "jan") {
        Some(Kw::Month(1))
    } else if word_is(w, "february") || word_is(w, "feb") {
        Some(Kw::Month(2))
    } else if word_is(w, "march") || word_is(w, "mar") {
        Some(Kw::Month(3))
    } else if word_is(w, "april") || word_is(w, "apr") {
        Some(Kw::Month(4))
    } else if word_is(w, "may") {
        Some(Kw::Month(5))
    } else if word_is(w, "june") || word_is(w, "jun") {
        Some(Kw::Month(6))
    } else if word_is(w, "july") || word_is(w, "jul") {
        Some(Kw::Month(7))
    } else if word_is(w, "august") || word_is(w, "aug") {
        Some(Kw::Month(8))
    } else if word_is(w, "september") || word_is(w, "sept") || word_is(w, "sep") {
        Some(Kw::Month(9))
    } else if word_is(w, "october") || word_is(w, "oct") {
        Some(Kw::Month(10))
    } else if word_is(w, "november") || word_is(w, "nov") {
        Some(Kw::Month(11))
    } else if word_is(w, "december") || word_is(w, "dec") {
        Some(Kw::Month(12))
    } else {
        None
    }
}

/// The ordinal words of days of the month.
pub open spec fn ordinal_kw(w: Seq<u8>) -> Option<Kw> {
    let n: int = if w == "first".spec_bytes() {
        1
    } else if w == "second".spec_bytes() {
        2
    } else if w == "third".spec_bytes() {
        3
    } else if w == "fourth".spec_bytes() {
        4
    } else if w == "fifth".spec_bytes() {
        5
    } else if w == "sixth".spec_bytes() {
        6
    } else if w == "seventh".spec_bytes() {
        7
    } else if w == "eighth".spec_bytes() {
        8
    } else if w == "ninth".spec_bytes() {
        9
    } else if w == "tenth".spec_bytes() {
        10
    } else if w == "eleventh".spec_bytes() {
        11
    } else if w == "twelfth".spec_bytes() {
        12
    } else if w == "thirteenth".spec_bytes() {
        13
    } else if w == "fourteenth".spec_bytes() {
        14
    } else if w == "fifteenth".spec_bytes() {
        15
    } else if w == "sixteenth".spec_bytes() {
        16
    } else if w == "seventeenth".spec_bytes() {
        17
    } else if w == "eighteenth".spec_bytes() {
        18
    } else if w == "nineteenth".spec_bytes() {
        19
    } else if w == "twentieth".spec_bytes() {
        20
    } else if w == "thirtieth".spec_bytes() {
        30
    } else {
        0
    };
    if n == 0 {
        None
    } else {
        Some(Kw::Ordinal(n as u8))
    }
}

fn ordinal_word(w: &Vec<u8>) -> (r: Option<Kw>)
    ensures
        r == ordinal_kw(w@),
        r matches Some(k) ==> k.wf(),
{
    let n: u8 = if word_is(w, "first") {
        1
    } else if word_is(w, "second") {
        2
    } else if word_is(w, "third") {
        3
    } else if word_is(w, "fourth") {
        4
    } else if word_is(w, "fifth") {
        5
    } else if word_is(w, "sixth") {
        6
    } else if word_is(w, "seventh") {
        7
    } else if word_is(w, "eighth") {
        8
    } else if word_is(w, "ninth") {
        9
    } else if word_is(w, "tenth") {
        10
    } else if word_is(w, "eleventh") {
        11
    } else if word_is(w, "twelfth") {
        12
    } else if word_is(w, "thirteenth") {
        13
    } else if word_is(w, "fourteenth") {
        14
    } else if word_is(w, "fifteenth") {
        15
    } else if word_is(w, "sixteenth") {
        16
    } else if word_is(w, "seventeenth") {
        17
    } else if word_is(w, "eighteenth") {
        18
    } else if word_is(w, "nineteenth") {
        19
    } else if word_is(w, "twentieth") {
        20
    } else if word_is(w, "thirtieth") {
        30
    } else {
        0
    };
    if n == 0 {
        None
    } else {
        Some(Kw::Ordinal(n))
    }
}

/// The number words that count units or build ordinals ("twenty-first").
pub open spec fn cardinal_kw(w: Seq<u8>) -> Option<Kw> {
    let n: int = if w == "one".spec_bytes() {
        1
    } else if w == "two".spec_bytes() {
        2
    } else if w == "three".spec_bytes() {
        3
    } else if w == "four".spec_bytes() {
        4
    } else if w == "five".spec_bytes() {
        5
    } else if w == "six".spec_bytes() {
        6
    } else if w == "seven".spec_bytes() {
        7
    } else if w == "eight".spec_bytes() {
        8
    } else if w == "nine".spec_bytes() {
        9
    } else if w == "ten".spec_bytes() {
        10
    } else if w == "eleven".spec_bytes() {
        11
    } else if w == "twelve".spec_bytes() {
        12
    } else if w == "twenty".spec_bytes() {
        20
    } else if w == "thirty".spec_bytes() {
        30
    } else {
        0
    };
    if n == 0 {
        None
    } else {
        Some(Kw::Cardinal(n as u8))
    }
}

fn cardinal_word(w: &Vec<u8>) -> (r: Option<Kw>)
    ensures
        r == cardinal_kw(w@),
        r matches Some(k) ==> k.wf(),
{
    let n: u8 = if word_is(w, "one") {
        1
    } else if word_is(w, "two") {
        2
    } else if word_is(w, "three") {
        3
    } else if word_is(w, "four") {
        4
    } else if word_is(w, "five") {
        5
    } else if word_is(w, "six") {
        6
    } else if word_is(w, "seven") {
        7
    } else if word_is(w, "eight") {
        8
    } else if word_is(w, "nine") {
        9
    } else if word_is(w, "ten") {
        10
    } else if word_is(w, "eleven") {
        11
    } else if word_is(w, "twelve") {
        12
    } else if word_is(w, "twenty") {
        20
    } else if word_is(w, "thirty") {
        30
    } else {
        0
    };
    if n == 0 {
        None
    } else {
        Some(Kw::Cardinal(n))
    }
}

/// The words of units of displacement.
pub open spec fn unit_kw(w: Seq<u8>) -> Option<Kw> {
    if w == "seconds".spec_bytes() || w == "secs".spec_bytes() || w == "sec".spec_bytes() {
        Some(Kw::Unit(Unit::Second))
    } else if w == "minute".spec_bytes() || w == "minutes".spec_bytes() || w == "mins".spec_bytes() || w == "min".spec_bytes() {
        Some(Kw::Unit(Unit::Minute))
    } else if w == "hour".spec_bytes() || w == "hours".spec_bytes() || w == "hrs".spec_bytes() || w == "hr".spec_bytes() {
        Some(Kw::Unit(Unit::Hour))
    } else if w == "day".spec_bytes() || w == "days".spec_bytes() {
        Some(Kw::Unit(Unit::Day))
    } else if w == "week".spec_bytes() || w == "weeks".spec_bytes() {
        Some(Kw::Unit(Unit::Week))
    } else {
        None
    }
}

fn unit_word(w: &Vec<u8>) -> (r: Option<Kw>)
    ensures
        r == unit_kw(w@),
        r matches Some(k) ==> k.wf(),
{
    if word_is(w, "seconds") || word_is(w, "secs") || word_is(w, "sec") {
        Some(Kw::Unit(Unit::Second))
    } else if word_is(w, "minute") || word_is(w, "minutes") || word_is(w, "mins") || word_is(
        w,
        "min",
    ) {
        Some(Kw::Unit(Unit::Minute))
    } else if word_is(w, "hour") || word_is(w, "hours") || word_is(w, "hrs") || word_is(w, "hr") {
        Some(Kw::Unit(Unit::Hour))
    } else if word_is(w, "day") || word_is(w, "days") {
        Some(Kw::Unit(Unit::Day))
    } else if word_is(w, "week") || word_is(w, "weeks") {
        Some(Kw::Unit(Unit::Week))
    } else {
        None
    }
}

/// The connecting and deictic words of the grammar.
pub open spec fn grammar_kw(w: Seq<u8>) -> Option<Kw> {
    if w == "st".spec_bytes() || w == "nd".spec_bytes() || w == "rd".spec_bytes() {
        Some(Kw::Suffix)
    } else if w == "th".spec_bytes() {
        Some(Kw::Th)
    } else if w == "the".spec_bytes() {
        Some(Kw::The)
    } else if w == "of".spec_bytes() {
        Some(Kw::Of)
    } else if w == "at".spec_bytes() {
        Some(Kw::At)
    } else if w == "on".spec_bytes() {
        Some(Kw::On)
    } else if w == "this".spec_bytes() {
        Some(Kw::This)
    } else if w == "next".spec_bytes() {
        Some(Kw::Next)
    } else if w == "last".spec_bytes() {
        Some(Kw::Last)
    } else if w == "weekend".spec_bytes() {
        Some(Kw::Weekend)
    } else if w == "month".spec_bytes() {
        Some(Kw::MonthWord)
    } else if w == "year".spec_bytes() {
        Some(Kw::YearWord)
    } else if w == "pay".spec_bytes() {
        Some(Kw::Pay)
    } else if w == "period".spec_bytes() {
        Some(Kw::Period)
    } else if w == "payperiod".spec_bytes() || w == "pp".spec_bytes() {
        Some(Kw::PayPeriod)
    } else if w == "now".spec_bytes() {
        Some(Kw::Now)
    } else if w == "today".spec_bytes() {
        Some(Kw::Today)
    } else if w == "tomorrow".spec_bytes() {
        Some(Kw::Tomorrow)
    } else if w == "yesterday".spec_bytes() {
        Some(Kw::Yesterday)
    } else if w == "noon".spec_bytes() {
        Some(Kw::Noon)
    } else if w == "midnight".spec_bytes() {
        Some(Kw::Midnight)
    } else if w == "ago".spec_bytes() {
        Some(Kw::Ago)
    } else if w == "from".spec_bytes() {
        Some(Kw::From)
    } else if w == "before".spec_bytes() {
        Some(Kw::Before)
    } else if w == "after".spec_bytes() {
        Some(Kw::After)
    } else if w == "and".spec_bytes() {
        Some(Kw::And)
    } else if w == "around".spec_bytes() {
        Some(Kw::Around)
    } else if w == "since".spec_bytes() {
        Some(Kw::Since)
    } else if w == "through".spec_bytes() || w == "thru".spec_bytes() || w == "until".spec_bytes() || w == "till".spec_bytes() {
        Some(Kw::Through)
    } else if w == "up".spec_bytes() {
        Some(Kw::Up)
    } else if w == "to".spec_bytes() {
        Some(Kw::To)
    } else if w == "start".spec_bytes() {
        Some(Kw::Start)
    } else if w == "beginning".spec_bytes() {
        Some(Kw::Beginning)
    } else if w == "end".spec_bytes() {
        Some(Kw::End)
    } else if w == "am".spec_bytes() {
        Some(Kw::Am)
    } else if w == "pm".spec_bytes() {
        Some(Kw::Pm)
    } else if w == "bc".spec_bytes() || w == "bce".spec_bytes() {
        Some(Kw::Bc)
    } else if w == "ad".spec_bytes() || w == "ce".spec_bytes() {
        Some(Kw::Ad)
    } else if w == "kalends".spec_bytes() || w == "calends".spec_bytes() {
        Some(Kw::Kalends)
    } else if w == "nones".spec_bytes() {
        Some(Kw::Nones)
    } else if w == "ides".spec_bytes() {
        Some(Kw::Ides)
    } else if w == "an".spec_bytes() {
        Some(Kw::An)
    } else {
        None
    }
}

fn grammar_word(w: &Vec<u8>) -> (r: Option<Kw>)
    ensures
        r == grammar_kw(w@),
        r matches Some(k) ==> k.wf(),
{
    if word_is(w, "st") || word_is(w, "nd") || word_is(w, "rd") {
        Some(Kw::Suffix)
    } else if word_is(w, "th") {
        Some(Kw::Th)
    } else if word_is(w, "the") {
        Some(Kw::The)
    } else if word_is(w, "of") {
        Some(Kw::Of)
    } else if word_is(w, "at") {
        Some(Kw::At)
    } else if word_is(w, "on") {
        Some(Kw::On)
    } else if word_is(w, "this") {
        Some(Kw::This)
    } else if word_is(w, "next") {
        Some(Kw::Next)
    } else if word_is(w, "last") {
        Some(Kw::Last)
    } else if word_is(w, "weekend") {
        Some(Kw::Weekend)
    } else if word_is(w, "month") {
        Some(Kw::MonthWord)
    } else if word_is(w, "year") {
        Some(Kw::YearWord)
    } else if word_is(w, "pay") {
        Some(Kw::Pay)
    } else if word_is(w, "period") {
        Some(Kw::Period)
    } else if word_is(w, "payperiod") || word_is(w, "pp") {
        Some(Kw::PayPeriod)
    } else if word_is(w, "now") {
        Some(Kw::Now)
    } else if word_is(w, "today") {
        Some(Kw::Today)
    } else if word_is(w, "tomorrow") {
        Some(Kw::Tomorrow)
    } else if word_is(w, "yesterday") {
        Some(Kw::Yesterday)
    } else if word_is(w, "noon") {
        Some(Kw::Noon)
    } else if word_is(w, "midnight") {
        Some(Kw::Midnight)
    } else if word_is(w, "ago") {
        Some(Kw::Ago)
    } else if word_is(w, "from") {
        Some(Kw::From)
    } else if word_is(w, "before") {
        Some(Kw::Before)
    } else if word_is(w, "after") {
        Some(Kw::After)
    } else if word_is(w, "and") {
        Some(Kw::And)
    } else if word_is(w, "around") {
        Some(Kw::Around)
    } else if word_is(w, "since") {
        Some(Kw::Since)
    } else if word_is(w, "through") || word_is(w, "thru") || word_is(w, "until") || word_is(
        w,
        "till",
    ) {
        Some(Kw::Through)
    } else if word_is(w, "up") {
        Some(Kw::Up)
    } else if word_is(w, "to") {
        Some(Kw::To)
    } else if word_is(w, "start") {
        Some(Kw::Start)
    } else if word_is(w, "beginning") {
        Some(Kw::Beginning)
    } else if word_is(w, "end") {
        Some(Kw::End)
    } else if word_is(w, "am") {
        Some(Kw::Am)
    } else if word_is(w, "pm") {
        Some(Kw::Pm)
    } else if word_is(w, "bc") || word_is(w, "bce") {
        Some(Kw::Bc)
    } else if word_is(w, "ad") || word_is(w, "ce") {
        Some(Kw::Ad)
    } else if word_is(w, "kalends") || word_is(w, "calends") {
        Some(Kw::Kalends)
    } else if word_is(w, "nones") {
        Some(Kw::Nones)
    } else if word_is(w, "ides") {
        Some(Kw::Ides)
    } else if word_is(w, "an") {
        Some(Kw::An)
    } else {
        None
    }
}

/// The words of the names of all time and of its first and last moments.
pub open spec fn epoch_kw(w: Seq<u8>) -> Option<Kw> {
    if w == "always".spec_bytes() {
        Some(Kw::Always)
    } else if w == "ever".spec_bytes() {
        Some(Kw::Ever)
    } else if w == "all".spec_bytes() {
        Some(Kw::All)
    } else if w == "time".spec_bytes() {
        Some(Kw::Time)
    } else if w == "forever".spec_bytes() {
        Some(Kw::Forever)
    } else if w == "very".spec_bytes() {
        Some(Kw::Very)
    } else if w == "moment".spec_bytes() {
        Some(Kw::Moment)
    } else if w == "instant".spec_bytes() {
        Some(Kw::Instant)
    } else if w == "dawn".spec_bytes() {
        Some(Kw::Dawn)
    } else if w == "big".spec_bytes() {
        Some(Kw::Big)
    } else if w == "bang".spec_bytes() {
        Some(Kw::Bang)
    } else if w == "birth".spec_bytes() {
        Some(Kw::Birth)
    } else if w == "universe".spec_bytes() {
        Some(Kw::Universe)
    } else if w == "eternity".spec_bytes() {
        Some(Kw::Eternity)
    } else if w == "infinity".spec_bytes() {
        Some(Kw::Infinity)
    } else if w == "doomsday".spec_bytes() {
        Some(Kw::Doomsday)
    } else if w == "crack".spec_bytes() {
        Some(Kw::Crack)
    } else if w == "doom".spec_bytes() {
        Some(Kw::Doom)
    } else if w == "armageddon".spec_bytes() {
        Some(Kw::Armageddon)
    } else if w == "ragnarok".spec_bytes() {
        Some(Kw::Ragnarok)
    } else if w == "crunch".spec_bytes() {
        Some(Kw::Crunch)
    } else if w == "heat".spec_bytes() {
        Some(Kw::Heat)
    } else if w == "death".spec_bytes() {
        Some(Kw::Death)
    } else if w == "perdition".spec_bytes() {
        Some(Kw::Perdition)
    } else if w == "hurrah".spec_bytes() {
        Some(Kw::Hurrah)
    } else if w == "syllable".spec_bytes() {
        Some(Kw::Syllable)
    } else if w == "recorded".spec_bytes() {
        Some(Kw::Recorded)
    } else {
        None
    }
}

fn epoch_word(w: &Vec<u8>) -> (r: Option<Kw>)
    ensures
        r == epoch_kw(w@),
        r matches Some(k) ==> k.wf(),
{
    if word_is(w, "always") {
        Some(Kw::Always)
    } else if word_is(w, "ever") {
        Some(Kw::Ever)
    } else if word_is(w, "all") {
        Some(Kw::All)
    } else if word_is(w, "time") {
        Some(Kw::Time)
    } else if word_is(w, "forever") {
        Some(Kw::Forever)
    } else if word_is(w, "very") {
        Some(Kw::Very)
    } else if word_is(w, "moment") {
        Some(Kw::Moment)
    } else if word_is(w, "instant") {
        Some(Kw::Instant)
    } else if word_is(w, "dawn") {
        Some(Kw::Dawn)
    } else if word_is(w, "big") {
        Some(Kw::Big)
    } else if word_is(w, "bang") {
        Some(Kw::Bang)
    } else if word_is(w, "birth") {
        Some(Kw::Birth)
    } else if word_is(w, "universe") {
        Some(Kw::Universe)
    } else if word_is(w, "eternity") {
        Some(Kw::Eternity)
    } else if word_is(w, "infinity") {
        Some(Kw::Infinity)
    } else if word_is(w, "doomsday") {
        Some(Kw::Doomsday)
    } else if word_is(w, "crack") {
        Some(Kw::Crack)
    } else if word_is(w, "doom") {
        Some(Kw::Doom)
    } else if word_is(w, "armageddon") {
        Some(Kw::Armageddon)
    } else if word_is(w, "ragnarok") {
        Some(Kw::Ragnarok)
    } else if word_is(w, "crunch") {
        Some(Kw::Crunch)
    } else if word_is(w, "heat") {
        Some(Kw::Heat)
    } else if word_is(w, "death") {
        Some(Kw::Death)
    } else if word_is(w, "perdition") {
        Some(Kw::Perdition)
    } else if word_is(w, "hurrah") {
        Some(Kw::Hurrah)
    } else if word_is(w, "syllable") {
        Some(Kw::Syllable)
    } else if word_is(w, "recorded") {
        Some(Kw::Recorded)
    } else {
        None
    }
}

/// The keyword that a lower-case word is: the first of the tables that has it.
#[verifier::opaque]
pub open spec fn keyword_of(w: Seq<u8>) -> Option<Kw> {
    if weekday_kw(w) is Some {
        weekday_kw(w)
    } else if month_kw(w) is Some {
        month_kw(w)
    } else if ordinal_kw(w) is Some {
        ordinal_kw(w)
    } else if cardinal_kw(w) is Some {
        cardinal_kw(w)
    } else if unit_kw(w) is Some {
        unit_kw(w)
    } else if grammar_kw(w) is Some {
        grammar_kw(w)
    } else {
        epoch_kw(w)
    }
}

/// The keyword that a lower-case word of two or more letters is, if any.
pub fn keyword(w: &Vec<u8>) -> (r: Option<Kw>)
    ensures
        r == keyword_of(w@),
        r matches Some(k) ==> k.wf(),
{
    proof {
        reveal(keyword_of);
    }
    if let Some(k) = weekday_word(w) {
        return Some(k);
    }
    if let Some(k) = month_word(w) {
        return Some(k);
    }
    if let Some(k) = ordinal_word(w) {
        return Some(k);
    }
    if let Some(k) = cardinal_word(w) {
        return Some(k);
    }
    if let Some(k) = unit_word(w) {
        return Some(k);
    }
    if let Some(k) = grammar_word(w) {
        return Some(k);
    }
    epoch_word(w)
}

pub open spec fn is_letter(b: u8) -> bool {
    (97 <= b <= 122) || (65 <= b <= 90)
}

pub open spec fn is_digit(b: u8) -> bool {
    48 <= b <= 57
}

pub open spec fn is_punct(b: u8) -> bool {
    b == 44 || b == 46 || b == 47 || b == 45 || b == 58 || b == 39
}

pub open spec fn is_space(b: u8) -> bool {
    b == 32 || b == 9 || b == 10 || b == 13
}

/// A letter in lower case.
pub open spec fn lower_of(b: u8) -> u8 {
    if b <= 90 {
        (b + 32) as u8
    } else {
        b
    }
}

fn lower(b: u8) -> (r: u8)
    requires
        is_letter(b),
    ensures
        r == lower_of(b),
        97 <= r <= 122,
{
    if b <= 90 {
        b + 32
    } else {
        b
    }
}

/// Where the run of digits (`digit`) or of letters that starts at `i` ends.
pub open spec fn run_end(s: Seq<u8>, i: int, digit: bool) -> int
    decreases s.len() - i,
{
    if 0 <= i < s.len() && (if digit {
        is_digit(s[i])
    } else {
        is_letter(s[i])
    }) {
        run_end(s, i + 1, digit)
    } else {
        i
    }
}

/// The value of the decimal digits `i..j`.
pub open spec fn digits_value(s: Seq<u8>, i: int, j: int) -> int
    decreases j - i,
{
    if j <= i {
        0
    } else {
        digits_value(s, i, j - 1) * 10 + (s[j - 1] - 48)
    }
}

/// The letters `i..j` in lower case.
pub open spec fn lowered(s: Seq<u8>, i: int, j: int) -> Seq<u8> {
    s.subrange(i, j).map_values(|b: u8| lower_of(b))
}

/// The token that starts at `i` (which holds no white space) and where it ends:
/// a punctuation mark; a run of at most `MAX_DIGITS` digits; a single letter,
/// which keeps whether it was a capital; or a longer run of letters that, in lower
/// case, is a keyword. Nothing else is a token.
pub open spec fn token_at(s: Seq<u8>, i: int) -> Option<(Token, int)> {
    let b = s[i];
    if is_punct(b) {
        Some((Token::Punct(b), i + 1))
    } else if is_digit(b) {
        let j = run_end(s, i, true);
        if j - i > MAX_DIGITS {
            None
        } else {
            Some((Token::Num { value: digits_value(s, i, j) as u64, digits: (j - i) as u8 }, j))
        }
    } else if is_letter(b) {
        let j = run_end(s, i, false);
        if j == i + 1 {
            Some((Token::Letter { ch: lower_of(b), upper: b <= 90 }, j))
        } else {
            match keyword_of(lowered(s, i, j)) {
                Some(k) => Some((Token::Word(k), j)),
                None => None,
            }
        }
    } else {
        None
    }
}

/// The tokens of the bytes from `i` on, white space skipped; `None` where a
/// byte starts no token.
pub open spec fn tokens_from(s: Seq<u8>, i: int) -> Option<Seq<Token>>
    decreases s.len() - i,
{
    if !(0 <= i < s.len()) {
        Some(seq![])
    } else if is_space(s[i]) {
        tokens_from(s, i + 1)
    } else {
        match token_at(s, i) {
            None => None,
            Some((tok, j)) => if j <= i || j > s.len() {
                None
            } else {
                match tokens_from(s, j) {
                    Some(rest) => Some(seq![tok] + rest),
                    None => None,
                }
            },
        }
    }
}

/// The tokens of a phrase.
pub open spec fn tokens_of(s: Seq<u8>) -> Option<Seq<Token>> {
    tokens_from(s, 0)
}

pub open spec fn after_prefix(p: Seq<Token>, r: Option<Seq<Token>>) -> Option<Seq<Token>> {
    match r {
        Some(x) => Some(p + x),
        None => None,
    }
}

proof fn lemma_run_end_after(s: Seq<u8>, i: int, digit: bool)
    requires
        0 <= i,
    ensures
        i <= run_end(s, i, digit),
        i <= s.len() ==> run_end(s, i, digit) <= s.len(),
    decreases s.len() - i,
{
    if 0 <= i < s.len() && (if digit {
        is_digit(s[i])
    } else {
        is_letter(s[i])
    }) {
        lemma_run_end_after(s, i + 1, digit);
    }
}

fn read_number(s: &[u8], i: usize) -> (r: Option<(Token, usize)>)
    requires
        i < s@.len(),
        is_digit(s@[i as int]),
    ensures
        match token_at(s@, i as int) {
            Some((tok, j)) => r matches Some((rt, rj)) && rt == tok && rj == j,
            None => r is None,
        },
        r matches Some((tok, j)) ==> tok.wf() && i < j <= s@.len(),
{
    let n = s.len();
    let mut value: u64 = 0;
    let mut digits: u8 = 0;
    let mut k = i;
    proof {
        reveal_with_fuel(pow10, 2);
    }
    while k < n && 48 <= s[k] && s[k] <= 57
        invariant
            n == s@.len(),
            i <= k <= n,
            digits == k - i,
            digits <= MAX_DIGITS,
            value < pow10(digits as nat),
            value == digits_value(s@, i as int, k as int),
            run_end(s@, i as int, true) == run_end(s@, k as int, true),
        decreases n - k,
    {
        if digits == MAX_DIGITS {
            proof {
                lemma_run_end_after(s@, k as int + 1, true);
            }
            return None;
        }
        proof {
            lemma_pow10_bound((digits + 1) as nat);
        }
        value = value * 10 + (s[k] - 48) as u64;
        digits = digits + 1;
        k = k + 1;
    }
    proof {
        lemma_pow10_bound(digits as nat);
    }
    Some((Token::Num { value, digits }, k))
}

fn read_word(s: &[u8], i: usize) -> (r: Option<(Token, usize)>)
    requires
        i < s@.len(),
        is_letter(s@[i as int]),
    ensures
        match token_at(s@, i as int) {
            Some((tok, j)) => r matches Some((rt, rj)) && rt == tok && rj == j,
            None => r is None,
        },
        r matches Some((tok, j)) ==> tok.wf() && i < j <= s@.len(),
{
    let n = s.len();
    let b = s[i];
    let mut w: Vec<u8> = Vec::new();
    let mut k = i;
    while k < n && is_letter_byte(s[k])
        invariant
            n == s@.len(),
            i <= k <= n,
            w@ == lowered(s@, i as int, k as int),
            run_end(s@, i as int, false) == run_end(s@, k as int, false),
        decreases n - k,
    {
        let c = lower(s[k]);
        proof {
            assert(lowered(s@, i as int, k + 1) =~= lowered(s@, i as int, k as int).push(c));
        }
        w.push(c);
        k = k + 1;
    }
    if w.len() == 1 {
        Some((Token::Letter { ch: w[0], upper: b <= 90 }, k))
    } else {
        match keyword(&w) {
            Some(kw) => Some((Token::Word(kw), k)),
            None => None,
        }
    }
}

/// The tokens of a phrase, or `None` where it holds an unknown word or character,
/// or a number with too many digits.
pub fn tokenize(s: &[u8]) -> (r: Option<Vec<Token>>)
    ensures
        match tokens_of(s@) {
            Some(t) => r matches Some(v) && v@ == t,
            None => r is None,
        },
        r matches Some(t) ==> tokens_wf(t@),
{
    let mut out: Vec<Token> = Vec::new();
    let mut i: usize = 0;
    let n = s.len();
    while i < n
        invariant
            n == s@.len(),
            i <= n,
            tokens_wf(out@),
            tokens_of(s@) == after_prefix(out@, tokens_from(s@, i as int)),
        decreases n - i,
    {
        let b = s[i];
        if is_space_byte(b) {
            i = i + 1;
        } else {
            let next = if is_punct_byte(b) {
                Some((Token::Punct(b), i + 1))
            } else if 48 <= b && b <= 57 {
                read_number(s, i)
            } else if is_letter_byte(b) {
                read_word(s, i)
            } else {
                None
            };
            match next {
                None => {
                    return None;
                },
                Some((tok, j)) => {
                    proof {
                        let rest = tokens_from(s@, j as int);
                        if let Some(x) = rest {
                            assert(out@.push(tok) + x =~= out@ + (seq![tok] + x));
                        }
                    }
                    out.push(tok);
                    i = j;
                },
            }
        }
    }
    proof {
        assert(out@ + seq![] =~= out@);
    }
    Some(out)
}

fn is_space_byte(b: u8) -> (r: bool)
    ensures
        r == is_space(b),
{
    b == 32 || b == 9 || b == 10 || b == 13
}

fn is_punct_byte(b: u8) -> (r: bool)
    ensures
        r == is_punct(b),
{
    b == 44 || b == 46 || b == 47 || b == 45 || b == 58 || b == 39
}

fn is_letter_byte(b: u8) -> (r: bool)
    ensures
        r == is_letter(b),
{
    (97 <= b && b <= 122) || (65 <= b && b <= 90)
}

pub open spec fn pow10(n: nat) -> nat
    decreases n,
{
    if n == 0 {
        1
    } else {
        10 * pow10((n - 1) as nat)
    }
}

proof fn lemma_pow10_bound(n: nat)
    requires
        n <= MAX_DIGITS,
    ensures
        pow10(n) <= 1_000_000_000_000,
{
    lemma_pow10_monotonic(n, MAX_DIGITS as nat);
    reveal_with_fuel(pow10, 13);
}

proof fn lemma_pow10_monotonic(a: nat, b: nat)
    requires
        a <= b,
    ensures
        pow10(a) <= pow10(b),
    decreases b - a,
{
    if a < b {
        lemma_pow10_monotonic(a, (b - 1) as nat);
    }
}

} // verus!
