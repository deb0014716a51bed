//! The pattern recognizer. Each parser here reads exactly the tokens `lo..hi`
//! and says which construction they form, so no choice is left to backtracking.
use vstd::prelude::*;
use crate::expr::{
    DaySpec, Expr, Moment, Placement, Relation, Span, TimeOfDay, Unit, YearSpec, MAX_COUNT,
    MAX_WRITTEN_YEAR,
};
use crate::lexer::{tokens_wf, Kw, Token};

verus! {

pub open spec fn span_ok(t: &Vec<Token>, lo: usize, hi: usize) -> bool {
    lo <= hi <= t@.len() < 1_000_000_000 && tokens_wf(t@)
}

/// The keyword at `i`, where a word stands there before `hi`.
pub open spec fn word_s(t: Seq<Token>, i: int, hi: int) -> Option<Kw> {
    if 0 <= i < hi && t[i] is Word {
        Some(t[i]->Word_0)
    } else {
        None
    }
}

/// Whether keyword `k` stands at `i`, before `hi`.
pub open spec fn word_is_s(t: Seq<Token>, i: int, hi: int, k: Kw) -> bool {
    0 <= i < hi && t[i] == Token::Word(k)
}

/// Whether punctuation `c` stands at `i`, before `hi`.
pub open spec fn punct_is_s(t: Seq<Token>, i: int, hi: int, c: u8) -> bool {
    0 <= i < hi && t[i] == Token::Punct(c)
}

/// The value and digit count of the number at `i`, where one stands there before `hi`.
pub open spec fn num_s(t: Seq<Token>, i: int, hi: int) -> Option<(u64, u8)> {
    if 0 <= i < hi && t[i] is Num {
        Some((t[i]->Num_value, t[i]->Num_digits))
    } else {
        None
    }
}

fn one_word(a: Kw) -> (r: Vec<Kw>)
    ensures
        r@ == seq![a],
{
    let mut v: Vec<Kw> = Vec::new();
    v.push(a);
    assert(v@ =~= seq![a]);
    v
}

fn six_words(a: Kw, b: Kw, c: Kw, d: Kw, e: Kw, f: Kw) -> (r: Vec<Kw>)
    ensures
        r@ == seq![a, b, c, d, e, f],
{
    let mut v: Vec<Kw> = Vec::new();
    v.push(a);
    v.push(b);
    v.push(c);
    v.push(d);
    v.push(e);
    v.push(f);
    assert(v@ =~= seq![a, b, c, d, e, f]);
    v
}

/// Whether the tokens `lo..hi` are exactly the words of `p`.
pub open spec fn phrase_s(t: Seq<Token>, lo: int, hi: int, p: Seq<Kw>) -> bool {
    hi - lo == p.len() && forall|i: int| 0 <= i < p.len() ==> t[lo + i] == Token::Word(p[i])
}

fn word_at(t: &Vec<Token>, i: usize, hi: usize) -> (r: Option<Kw>)
    requires
        hi <= t@.len() < 1_000_000_000,
        tokens_wf(t@),
    ensures
        r == word_s(t@, i as int, hi as int),
        r matches Some(k) ==> k.wf(),
{
    if i < hi {
        match t[i] {
            Token::Word(k) => {
                assert(t@[i as int].wf());
                Some(k)
            },
            _ => None,
        }
    } else {
        None
    }
}

fn is_word(t: &Vec<Token>, i: usize, hi: usize, k: Kw) -> (r: bool)
    requires
        hi <= t@.len() < 1_000_000_000,
    ensures
        r == word_is_s(t@, i as int, hi as int, k),
{
    i < hi && t[i] == Token::Word(k)
}

fn is_punct(t: &Vec<Token>, i: usize, hi: usize, c: u8) -> (r: bool)
    requires
        hi <= t@.len() < 1_000_000_000,
    ensures
        r == punct_is_s(t@, i as int, hi as int, c),
{
    i < hi && t[i] == Token::Punct(c)
}

/// The value and digit count of a number at `i`.
fn num_at(t: &Vec<Token>, i: usize, hi: usize) -> (r: Option<(u64, u8)>)
    requires
        hi <= t@.len() < 1_000_000_000,
        tokens_wf(t@),
    ensures
        r matches Some((v, d)) ==> v < 1_000_000_000_000 && 1 <= d && i < hi && (t@[i as int]
            == (Token::Num { value: v, digits: d })),
        r == num_s(t@, i as int, hi as int),
{
    if i < hi {
        match t[i] {
            Token::Num { value, digits } => {
                assert(t@[i as int].wf());
                Some((value, digits))
            },
            _ => None,
        }
    } else {
        None
    }
}

/// Whether `lo..hi` is exactly the words of `p`.
fn phrase_is(t: &Vec<Token>, lo: usize, hi: usize, p: &Vec<Kw>) -> (r: bool)
    requires
        lo <= hi <= t@.len() < 1_000_000_000,
    ensures
        r == phrase_s(t@, lo as int, hi as int, p@),
{
    if hi - lo != p.len() {
        return false;
    }
    let mut i: usize = 0;
    while i < p.len()
        invariant
            hi - lo == p@.len(),
            lo <= hi <= t@.len() < 1_000_000_000,
            i <= p@.len(),
            forall|j: int| 0 <= j < i ==> t@[lo + j] == Token::Word(p@[j]),
        decreases p@.len() - i,
    {
        if t[lo + i] != Token::Word(p[i]) {
            return false;
        }
        i = i + 1;
    }
    true
}

/// The names of all of time.
pub open spec fn universal_s(t: Seq<Token>, lo: int, hi: int) -> bool {
    ||| phrase_s(t, lo, hi, seq![Kw::Always])
    ||| phrase_s(t, lo, hi, seq![Kw::Ever])
    ||| phrase_s(t, lo, hi, seq![Kw::All, Kw::Time])
    ||| phrase_s(t, lo, hi, seq![Kw::Forever])
    ||| phrase_s(t, lo, hi, seq![Kw::From, Kw::Beginning, Kw::To, Kw::End])
    ||| phrase_s(t, lo, hi, seq![Kw::From, Kw::The, Kw::Beginning, Kw::To, Kw::The, Kw::End])
}

fn is_universal(t: &Vec<Token>, lo: usize, hi: usize) -> (r: bool)
    requires
        lo <= hi <= t@.len() < 1_000_000_000,
    ensures
        r == universal_s(t@, lo as int, hi as int),
{
    phrase_is(t, lo, hi, &one_word(Kw::Always)) || phrase_is(t, lo, hi, &one_word(Kw::Ever)) || phrase_is(
        t,
        lo,
        hi,
        &vec![Kw::All, Kw::Time],
    ) || phrase_is(t, lo, hi, &one_word(Kw::Forever)) || phrase_is(
        t,
        lo,
        hi,
        &vec![Kw::From, Kw::Beginning, Kw::To, Kw::End],
    ) || phrase_is(t, lo, hi, &six_words(Kw::From, Kw::The, Kw::Beginning, Kw::To, Kw::The, Kw::End))
}

/// The names of the first moment of time.
pub open spec fn first_moment_s(t: Seq<Token>, lo: int, hi: int) -> bool {
    ||| phrase_s(t, lo, hi, seq![Kw::The, Kw::Beginning])
    ||| phrase_s(t, lo, hi, seq![Kw::The, Kw::Beginning, Kw::Of, Kw::Time])
    ||| phrase_s(t, lo, hi, seq![Kw::The, Kw::Ordinal(1), Kw::Moment])
    ||| phrase_s(t, lo, hi, seq![Kw::The, Kw::Start])
    ||| phrase_s(t, lo, hi, seq![Kw::The, Kw::Very, Kw::Start])
    ||| phrase_s(t, lo, hi, seq![Kw::The, Kw::Ordinal(1), Kw::Instant])
    ||| phrase_s(t, lo, hi, seq![Kw::The, Kw::Dawn, Kw::Of, Kw::Time])
    ||| phrase_s(t, lo, hi, seq![Kw::The, Kw::Big, Kw::Bang])
    ||| phrase_s(t, lo, hi, seq![Kw::The, Kw::Birth, Kw::Of, Kw::The, Kw::Universe])
}

fn is_first_moment(t: &Vec<Token>, lo: usize, hi: usize) -> (r: bool)
    requires
        lo <= hi <= t@.len() < 1_000_000_000,
    ensures
        r == first_moment_s(t@, lo as int, hi as int),
{
    phrase_is(t, lo, hi, &vec![Kw::The, Kw::Beginning]) || phrase_is(
        t,
        lo,
        hi,
        &vec![Kw::The, Kw::Beginning, Kw::Of, Kw::Time],
    ) || phrase_is(t, lo, hi, &vec![Kw::The, Kw::Ordinal(1), Kw::Moment]) || phrase_is(
        t,
        lo,
        hi,
        &vec![Kw::The, Kw::Start],
    ) || phrase_is(t, lo, hi, &vec![Kw::The, Kw::Very, Kw::Start]) || phrase_is(
        t,
        lo,
        hi,
        &vec![Kw::The, Kw::Ordinal(1), Kw::Instant],
    ) || phrase_is(t, lo, hi, &vec![Kw::The, Kw::Dawn, Kw::Of, Kw::Time]) || phrase_is(
        t,
        lo,
        hi,
        &vec![Kw::The, Kw::Big, Kw::Bang],
    ) || phrase_is(t, lo, hi, &vec![Kw::The, Kw::Birth, Kw::Of, Kw::The, Kw::Universe])
}

/// The names of the last moment of time.
pub open spec fn last_moment_s(t: Seq<Token>, lo: int, hi: int) -> bool {
    ||| phrase_s(t, lo, hi, seq![Kw::The, Kw::End])
    ||| phrase_s(t, lo, hi, seq![Kw::The, Kw::End, Kw::Of, Kw::Time])
    ||| phrase_s(t, lo, hi, seq![Kw::The, Kw::Very, Kw::End])
    ||| phrase_s(t, lo, hi, seq![Kw::The, Kw::Last, Kw::Moment])
    ||| phrase_s(t, lo, hi, seq![Kw::Eternity])
    ||| phrase_s(t, lo, hi, seq![Kw::Infinity])
    ||| phrase_s(t, lo, hi, seq![Kw::Doomsday])
    ||| phrase_s(t, lo, hi, seq![Kw::The, Kw::Crack, Kw::Of, Kw::Doom])
    ||| phrase_s(t, lo, hi, seq![Kw::Armageddon])
    ||| phrase_s(t, lo, hi, seq![Kw::Ragnarok])
    ||| phrase_s(t, lo, hi, seq![Kw::The, Kw::Big, Kw::Crunch])
    ||| phrase_s(t, lo, hi, seq![Kw::The, Kw::Heat, Kw::Death, Kw::Of, Kw::The, Kw::Universe])
    ||| phrase_s(t, lo, hi, seq![Kw::Doom])
    ||| phrase_s(t, lo, hi, seq![Kw::Death])
    ||| phrase_s(t, lo, hi, seq![Kw::Perdition])
    ||| phrase_s(t, lo, hi, seq![Kw::The, Kw::Last, Kw::Hurrah])
    ||| phrase_s(t, lo, hi, seq![Kw::Ever, Kw::After])
    ||| phrase_s(t, lo, hi, seq![Kw::The, Kw::Last, Kw::Syllable, Kw::Of, Kw::Recorded, Kw::Time])
}

fn is_last_moment(t: &Vec<Token>, lo: usize, hi: usize) -> (r: bool)
    requires
        lo <= hi <= t@.len() < 1_000_000_000,
    ensures
        r == last_moment_s(t@, lo as int, hi as int),
{
    phrase_is(t, lo, hi, &vec![Kw::The, Kw::End]) || phrase_is(
        t,
        lo,
        hi,
        &vec![Kw::The, Kw::End, Kw::Of, Kw::Time],
    ) || phrase_is(t, lo, hi, &vec![Kw::The, Kw::Very, Kw::End]) || phrase_is(
        t,
        lo,
        hi,
        &vec![Kw::The, Kw::Last, Kw::Moment],
    ) || phrase_is(t, lo, hi, &one_word(Kw::Eternity)) || phrase_is(t, lo, hi, &one_word(Kw::Infinity))
        || phrase_is(t, lo, hi, &one_word(Kw::Doomsday)) || phrase_is(
        t,
        lo,
        hi,
        &vec![Kw::The, Kw::Crack, Kw::Of, Kw::Doom],
    ) || phrase_is(t, lo, hi, &one_word(Kw::Armageddon)) || phrase_is(t, lo, hi, &one_word(Kw::Ragnarok))
        || phrase_is(t, lo, hi, &vec![Kw::The, Kw::Big, Kw::Crunch]) || phrase_is(
        t,
        lo,
        hi,
        &six_words(Kw::The, Kw::Heat, Kw::Death, Kw::Of, Kw::The, Kw::Universe),
    ) || phrase_is(t, lo, hi, &one_word(Kw::Doom)) || phrase_is(t, lo, hi, &one_word(Kw::Death))
        || phrase_is(t, lo, hi, &one_word(Kw::Perdition)) || phrase_is(
        t,
        lo,
        hi,
        &vec![Kw::The, Kw::Last, Kw::Hurrah],
    ) || phrase_is(t, lo, hi, &vec![Kw::Ever, Kw::After]) || phrase_is(
        t,
        lo,
        hi,
        &six_words(Kw::The, Kw::Last, Kw::Syllable, Kw::Of, Kw::Recorded, Kw::Time),
    )
}

/// Whether `s` is "am" (`Some(false)`) or "pm" (`Some(true)`): written as a word,
/// or as letters with stops ("a.m.", "p.m", "P.M.").
pub open spec fn meridiem(s: Seq<Token>) -> Option<bool> {
    if s.len() == 1 && s[0] == Token::Word(Kw::Am) {
        Some(false)
    } else if s.len() == 1 && s[0] == Token::Word(Kw::Pm) {
        Some(true)
    } else if (s.len() == 3 || s.len() == 4) && s[1] == Token::Punct(46) && (s.len() == 4 ==> s[3]
        == Token::Punct(46)) && s[2] matches Token::Letter { ch: 109, .. } {
        match s[0] {
            Token::Letter { ch: 97, .. } => Some(false),
            Token::Letter { ch: 112, .. } => Some(true),
            _ => None,
        }
    } else {
        None
    }
}

fn am_pm(t: &Vec<Token>, lo: usize, hi: usize) -> (r: Option<bool>)
    requires
        lo <= hi <= t@.len() < 1_000_000_000,
    ensures
        r == meridiem(t@.subrange(lo as int, hi as int)),
{
    if hi == lo + 1 {
        if is_word(t, lo, hi, Kw::Am) {
            return Some(false);
        }
        if is_word(t, lo, hi, Kw::Pm) {
            return Some(true);
        }
        return None;
    }
    if hi != lo + 3 && hi != lo + 4 {
        return None;
    }
    if !is_punct(t, lo + 1, hi, 46) {
        return None;
    }
    if hi == lo + 4 && !is_punct(t, lo + 3, hi, 46) {
        return None;
    }
    match (t[lo], t[lo + 2]) {
        (Token::Letter { ch: 97, .. }, Token::Letter { ch: 109, .. }) => Some(false),
        (Token::Letter { ch: 112, .. }, Token::Letter { ch: 109, .. }) => Some(true),
        _ => None,
    }
}

/// Two digits from 00 to 59.
fn sexagesimal(t: &Vec<Token>, i: usize, hi: usize) -> (r: Option<u8>)
    requires
        hi <= t@.len() < 1_000_000_000,
        tokens_wf(t@),
    ensures
        r matches Some(v) ==> v < 60 && i < hi,
        r == (if i < hi {
            sexagesimal_of(t@[i as int])
        } else {
            None
        }),
{
    match num_at(t, i, hi) {
        Some((v, 2)) if v < 60 => Some(v as u8),
        _ => None,
    }
}

pub open spec fn sexagesimal_of(x: Token) -> Option<u8> {
    match x {
        Token::Num { value, digits } => if digits == 2 && value < 60 {
            Some(value as u8)
        } else {
            None
        },
        _ => None,
    }
}

/// The minutes and seconds that follow the hour at the head of `s`, after
/// colons, and the tokens that the hour, minutes and seconds take; `None`
/// where a colon is followed by no two-digit number below 60.
pub open spec fn clock_minutes(s: Seq<Token>) -> Option<(Option<u8>, Option<u8>, int)> {
    if s.len() >= 2 && s[1] == Token::Punct(58) {
        if s.len() >= 3 && sexagesimal_of(s[2]) is Some {
            if s.len() >= 4 && s[3] == Token::Punct(58) {
                if s.len() >= 5 && sexagesimal_of(s[4]) is Some {
                    Some((sexagesimal_of(s[2]), sexagesimal_of(s[4]), 5))
                } else {
                    None
                }
            } else {
                Some((sexagesimal_of(s[2]), None, 3))
            }
        } else {
            None
        }
    } else {
        Some((None, None, 1))
    }
}

/// A time of day as written: "noon" (12:00:00), "midnight" (24:00:00), or an
/// hour of at most two digits, perhaps with minutes and seconds, perhaps followed
/// by "am" or "pm". With "am" or "pm" the hour `h` runs from 1 to 12 and stands
/// for `h` ("am") or `(h + 12) % 24` ("pm"); without, it runs from 0 to 24, and
/// 24 takes no minutes or seconds but zero.
pub open spec fn time_spec(s: Seq<Token>) -> Option<TimeOfDay> {
    if s.len() == 1 && s[0] == Token::Word(Kw::Noon) {
        Some(TimeOfDay { hour: 12, minute: Some(0), second: Some(0) })
    } else if s.len() == 1 && s[0] == Token::Word(Kw::Midnight) {
        Some(TimeOfDay { hour: 24, minute: Some(0), second: Some(0) })
    } else if s.len() == 0 || !(s[0] matches Token::Num { value, digits } && digits <= 2 && value
        <= 24) {
        None
    } else {
        let h = s[0]->Num_value as u8;
        match clock_minutes(s) {
            None => None,
            Some((minute, second, n)) => if n == s.len() {
                if h == 24 && !((minute is None || minute == Some(0u8)) && (second is None
                    || second == Some(0u8))) {
                    None
                } else {
                    Some(TimeOfDay { hour: h, minute, second })
                }
            } else {
                match meridiem(s.subrange(n, s.len() as int)) {
                    Some(pm) => if 1 <= h <= 12 {
                        Some(
                            TimeOfDay {
                                hour: if pm {
                                    ((h + 12) % 24) as u8
                                } else {
                                    h
                                },
                                minute,
                                second,
                            },
                        )
                    } else {
                        None
                    },
                    None => None,
                }
            },
        }
    }
}

/// A time of day: "noon", "midnight", or hours with minutes and seconds, on the
/// 12-hour clock (with am or pm) or the 24-hour clock.
pub fn time_of_day(t: &Vec<Token>, lo: usize, hi: usize) -> (r: Option<TimeOfDay>)
    requires
        span_ok(t, lo, hi),
    ensures
        r == time_spec(t@.subrange(lo as int, hi as int)),
        r matches Some(x) ==> x.wf(),
{
    if hi == lo + 1 && is_word(t, lo, hi, Kw::Noon) {
        return Some(TimeOfDay { hour: 12, minute: Some(0), second: Some(0) });
    }
    if hi == lo + 1 && is_word(t, lo, hi, Kw::Midnight) {
        return Some(TimeOfDay { hour: 24, minute: Some(0), second: Some(0) });
    }
    let h = match num_at(t, lo, hi) {
        Some((v, d)) if d <= 2 && v <= 24 => v as u8,
        _ => {
            return None;
        },
    };
    let mut i = lo + 1;
    let mut minute: Option<u8> = None;
    let mut second: Option<u8> = None;
    if is_punct(t, i, hi, 58) {
        match sexagesimal(t, i + 1, hi) {
            Some(m) => {
                minute = Some(m);
                i = i + 2;
            },
            None => {
                return None;
            },
        }
        if is_punct(t, i, hi, 58) {
            match sexagesimal(t, i + 1, hi) {
                Some(s) => {
                    second = Some(s);
                    i = i + 2;
                },
                None => {
                    return None;
                },
            }
        }
    }
    if i == hi {
        let zero = (minute.is_none() || minute == Some(0u8)) && (second.is_none() || second
            == Some(0u8));
        if h == 24 && !zero {
            return None;
        }
        return Some(TimeOfDay { hour: h, minute, second });
    }
    match am_pm(t, i, hi) {
        Some(pm) => {
            if h < 1 || h > 12 {
                return None;
            }
            let hour = if pm {
                (h + 12) % 24
            } else {
                h
            };
            Some(TimeOfDay { hour, minute, second })
        },
        None => None,
    }
}

/// A written year: an apostrophe and two digits ("'69"); a number from 1 to
/// 9999 of three or more digits; such a number followed by "BC" or "AD"; or,
/// where `bare_short` allows it, two bare digits.
pub open spec fn year_s(t: Seq<Token>, lo: int, hi: int, bare_short: bool) -> Option<YearSpec> {
    if hi == lo + 2 && punct_is_s(t, lo, hi, 39) {
        match num_s(t, lo + 1, hi) {
            Some((v, d)) => if d == 2 && v < 100 {
                Some(YearSpec::Short { digits: v as u8 })
            } else {
                None
            },
            None => None,
        }
    } else {
        match num_s(t, lo, hi) {
            None => None,
            Some((v, d)) => if hi == lo + 1 && d == 2 && v < 100 && bare_short {
                Some(YearSpec::Short { digits: v as u8 })
            } else if !(1 <= v <= MAX_WRITTEN_YEAR) {
                None
            } else if hi == lo + 1 {
                if d >= 3 {
                    Some(YearSpec::Full { value: v as u32, bc: false })
                } else {
                    None
                }
            } else if hi == lo + 2 && word_is_s(t, lo + 1, hi, Kw::Bc) {
                Some(YearSpec::Full { value: v as u32, bc: true })
            } else if hi == lo + 2 && word_is_s(t, lo + 1, hi, Kw::Ad) {
                Some(YearSpec::Full { value: v as u32, bc: false })
            } else {
                None
            },
        }
    }
}

/// A year: in full with three or four digits, with an era, or as two digits
/// (after an apostrophe, or bare where `bare_short` allows it).
fn year(t: &Vec<Token>, lo: usize, hi: usize, bare_short: bool) -> (r: Option<YearSpec>)
    requires
        span_ok(t, lo, hi),
    ensures
        r == year_s(t@, lo as int, hi as int, bare_short),
        r matches Some(y) ==> y.wf(),
{
    if hi == lo + 2 && is_punct(t, lo, hi, 39) {
        return match num_at(t, lo + 1, hi) {
            Some((v, 2)) if v < 100 => Some(YearSpec::Short { digits: v as u8 }),
            _ => None,
        };
    }
    match num_at(t, lo, hi) {
        Some((v, d)) => {
            if v < 1 || v > MAX_WRITTEN_YEAR as u64 {
                if hi == lo + 1 && d == 2 && v < 100 && bare_short {
                    return Some(YearSpec::Short { digits: v as u8 });
                }
                return None;
            }
            if hi == lo + 1 {
                if d >= 3 {
                    Some(YearSpec::Full { value: v as u32, bc: false })
                } else if d == 2 && v < 100 && bare_short {
                    Some(YearSpec::Short { digits: v as u8 })
                } else {
                    None
                }
            } else if hi == lo + 2 && is_word(t, lo + 1, hi, Kw::Bc) {
                Some(YearSpec::Full { value: v as u32, bc: true })
            } else if hi == lo + 2 && is_word(t, lo + 1, hi, Kw::Ad) {
                Some(YearSpec::Full { value: v as u32, bc: false })
            } else {
                None
            }
        },
        None => None,
    }
}

/// A day of the month from 1 to 31: a number of at most two digits, perhaps
/// followed by "st", "nd", "rd" or "th"; an ordinal word; or "twenty" or
/// "thirty", a hyphen and an ordinal word up to "ninth".
pub open spec fn day_number_s(t: Seq<Token>, lo: int, hi: int) -> Option<u8> {
    match num_s(t, lo, hi) {
        Some((v, d)) => if d <= 2 && 1 <= v <= 31 && (hi == lo + 1 || (hi == lo + 2 && (word_is_s(
            t,
            lo + 1,
            hi,
            Kw::Suffix,
        ) || word_is_s(t, lo + 1, hi, Kw::Th)))) {
            Some(v as u8)
        } else {
            None
        },
        None => if hi == lo + 1 {
            match word_s(t, lo, hi) {
                Some(Kw::Ordinal(n)) => Some(n),
                _ => None,
            }
        } else if hi == lo + 3 && punct_is_s(t, lo + 1, hi, 45) {
            match (word_s(t, lo, hi), word_s(t, lo + 2, hi)) {
                (Some(Kw::Cardinal(tens)), Some(Kw::Ordinal(units))) => if (tens == 20 || tens == 30)
                    && units <= 9 && tens + units <= 31 {
                    Some((tens + units) as u8)
                } else {
                    None
                },
                _ => None,
            }
        } else {
            None
        },
    }
}

/// A day of the month as a number ("6", "6th") or an ordinal word ("sixth",
/// "twenty-first").
fn day_number_words(t: &Vec<Token>, lo: usize, hi: usize) -> (r: Option<u8>)
    requires
        span_ok(t, lo, hi),
    ensures
        r == day_number_s(t@, lo as int, hi as int),
        r matches Some(d) ==> 1 <= d <= 31,
{
    if let Some((v, d)) = num_at(t, lo, hi) {
        if d > 2 || v < 1 || v > 31 {
            return None;
        }
        if hi == lo + 1 || (hi == lo + 2 && (is_word(t, lo + 1, hi, Kw::Suffix) || is_word(
            t,
            lo + 1,
            hi,
            Kw::Th,
        ))) {
            return Some(v as u8);
        }
        return None;
    }
    if hi == lo + 1 {
        if let Some(Kw::Ordinal(n)) = word_at(t, lo, hi) {
            return Some(n);
        }
        return None;
    }
    if hi == lo + 3 && is_punct(t, lo + 1, hi, 45) {
        if let (Some(Kw::Cardinal(tens)), Some(Kw::Ordinal(units))) = (
            word_at(t, lo, hi),
            word_at(t, lo + 2, hi),
        ) {
            if (tens == 20 || tens == 30) && units <= 9 && tens + units <= 31 {
                return Some(tens + units);
            }
        }
    }
    None
}

/// A day of the month, or one of the Roman "kalends", "nones" and "ides".
pub open spec fn day_spec_s(t: Seq<Token>, lo: int, hi: int) -> Option<DaySpec> {
    if hi == lo + 1 && word_is_s(t, lo, hi, Kw::Kalends) {
        Some(DaySpec::Kalends)
    } else if hi == lo + 1 && word_is_s(t, lo, hi, Kw::Nones) {
        Some(DaySpec::Nones)
    } else if hi == lo + 1 && word_is_s(t, lo, hi, Kw::Ides) {
        Some(DaySpec::Ides)
    } else {
        match day_number_s(t, lo, hi) {
            Some(d) => Some(DaySpec::Num(d)),
            None => None,
        }
    }
}

/// A day of the month, or a Roman kalends, nones or ides.
fn day_spec(t: &Vec<Token>, lo: usize, hi: usize) -> (r: Option<DaySpec>)
    requires
        span_ok(t, lo, hi),
    ensures
        r == day_spec_s(t@, lo as int, hi as int),
        r matches Some(d) ==> d.wf(),
{
    if hi == lo + 1 {
        if is_word(t, lo, hi, Kw::Kalends) {
            return Some(DaySpec::Kalends);
        }
        if is_word(t, lo, hi, Kw::Nones) {
            return Some(DaySpec::Nones);
        }
        if is_word(t, lo, hi, Kw::Ides) {
            return Some(DaySpec::Ides);
        }
    }
    match day_number_words(t, lo, hi) {
        Some(d) => Some(DaySpec::Num(d)),
        None => None,
    }
}

/// The month named at `i`.
pub open spec fn month_name_s(t: Seq<Token>, i: int, hi: int) -> Option<u8> {
    match word_s(t, i, hi) {
        Some(Kw::Month(m)) => Some(m),
        _ => None,
    }
}

fn month_name(t: &Vec<Token>, i: usize, hi: usize) -> (r: Option<u8>)
    requires
        hi <= t@.len() < 1_000_000_000,
        tokens_wf(t@),
    ensures
        r == month_name_s(t@, i as int, hi as int),
        r matches Some(m) ==> 1 <= m <= 12,
{
    match word_at(t, i, hi) {
        Some(Kw::Month(m)) => Some(m),
        _ => None,
    }
}

/// The weekday that a capital letter stands for: M T W R F S U.
pub open spec fn capital_weekday(ch: u8) -> Option<u8> {
    if ch == 109 {
        Some(0)
    } else if ch == 116 {
        Some(1)
    } else if ch == 119 {
        Some(2)
    } else if ch == 114 {
        Some(3)
    } else if ch == 102 {
        Some(4)
    } else if ch == 115 {
        Some(5)
    } else if ch == 117 {
        Some(6)
    } else {
        None
    }
}

/// A weekday, perhaps followed by a stop: its name or an abbreviation, "Th", or a
/// capital letter.
pub open spec fn weekday_s(t: Seq<Token>, lo: int, hi: int) -> Option<u8> {
    if !(hi == lo + 1 || (hi == lo + 2 && punct_is_s(t, lo + 1, hi, 46))) {
        None
    } else {
        match t[lo] {
            Token::Word(Kw::Weekday(w)) => Some(w),
            Token::Word(Kw::Th) => Some(3),
            Token::Letter { ch, upper: true } => capital_weekday(ch),
            _ => None,
        }
    }
}

/// A weekday: its name or abbreviation (with or without a stop), or one of the
/// capital letters M T W R F S U.
fn weekday(t: &Vec<Token>, lo: usize, hi: usize) -> (r: Option<u8>)
    requires
        span_ok(t, lo, hi),
    ensures
        r == weekday_s(t@, lo as int, hi as int),
        r matches Some(w) ==> w < 7,
{
    let end = if hi == lo + 2 && is_punct(t, lo + 1, hi, 46) {
        lo + 1
    } else {
        hi
    };
    if end != lo + 1 {
        return None;
    }
    match t[lo] {
        Token::Word(Kw::Weekday(w)) => {
            assert(t@[lo as int].wf());
            Some(w)
        },
        Token::Word(Kw::Th) => Some(3),
        Token::Letter { ch, upper: true } => {
            if ch == 109 {
                Some(0)
            } else if ch == 116 {
                Some(1)
            } else if ch == 119 {
                Some(2)
            } else if ch == 114 {
                Some(3)
            } else if ch == 102 {
                Some(4)
            } else if ch == 115 {
                Some(5)
            } else if ch == 117 {
                Some(6)
            } else {
                None
            }
        },
        _ => None,
    }
}

/// "this", "next" or "last" at `i`.
pub open spec fn relation_s(t: Seq<Token>, i: int, hi: int) -> Option<Relation> {
    if word_is_s(t, i, hi, Kw::This) {
        Some(Relation::This)
    } else if word_is_s(t, i, hi, Kw::Next) {
        Some(Relation::Next)
    } else if word_is_s(t, i, hi, Kw::Last) {
        Some(Relation::Last)
    } else {
        None
    }
}

fn relation(t: &Vec<Token>, i: usize, hi: usize) -> (r: Option<Relation>)
    requires
        hi <= t@.len() < 1_000_000_000,
    ensures
        r == relation_s(t@, i as int, hi as int),
        r is Some ==> i < hi,
{
    if is_word(t, i, hi, Kw::This) {
        Some(Relation::This)
    } else if is_word(t, i, hi, Kw::Next) {
        Some(Relation::Next)
    } else if is_word(t, i, hi, Kw::Last) {
        Some(Relation::Last)
    } else {
        None
    }
}

/// The name of a recurring period: "week", "weekend", "month", "year", "pay
/// period", "payperiod" or "pp".
pub open spec fn span_s(t: Seq<Token>, lo: int, hi: int) -> Option<Span> {
    if hi == lo + 1 {
        if word_is_s(t, lo, hi, Kw::Unit(Unit::Week)) {
            Some(Span::Week)
        } else if word_is_s(t, lo, hi, Kw::Weekend) {
            Some(Span::Weekend)
        } else if word_is_s(t, lo, hi, Kw::MonthWord) {
            Some(Span::Month)
        } else if word_is_s(t, lo, hi, Kw::YearWord) {
            Some(Span::Year)
        } else if word_is_s(t, lo, hi, Kw::PayPeriod) {
            Some(Span::PayPeriod)
        } else {
            None
        }
    } else if hi == lo + 2 && word_is_s(t, lo, hi, Kw::Pay) && word_is_s(t, lo + 1, hi, Kw::Period) {
        Some(Span::PayPeriod)
    } else {
        None
    }
}

fn span_word(t: &Vec<Token>, lo: usize, hi: usize) -> (r: Option<Span>)
    requires
        lo <= hi <= t@.len() < 1_000_000_000,
    ensures
        r == span_s(t@, lo as int, hi as int),
{
    if hi == lo + 1 {
        if is_word(t, lo, hi, Kw::Unit(Unit::Week)) {
            Some(Span::Week)
        } else if is_word(t, lo, hi, Kw::Weekend) {
            Some(Span::Weekend)
        } else if is_word(t, lo, hi, Kw::MonthWord) {
            Some(Span::Month)
        } else if is_word(t, lo, hi, Kw::YearWord) {
            Some(Span::Year)
        } else if is_word(t, lo, hi, Kw::PayPeriod) {
            Some(Span::PayPeriod)
        } else {
            None
        }
    } else if hi == lo + 2 && is_word(t, lo, hi, Kw::Pay) && is_word(t, lo + 1, hi, Kw::Period) {
        Some(Span::PayPeriod)
    } else {
        None
    }
}

fn is_date_separator(c: u8) -> (r: bool)
    ensures
        r == date_separator(c),
{
    c == 47 || c == 45 || c == 46
}

/// The month and day that two numbers of at most two digits stand for: month
/// first where that gives a possible day of the month, else day first.
pub open spec fn month_day_of(a: int, da: int, b: int, db: int) -> Option<(int, int)> {
    if da > 2 || db > 2 {
        None
    } else if 1 <= a <= 12 && 1 <= b <= 31 {
        Some((a, b))
    } else if 1 <= b <= 12 && 1 <= a <= 31 {
        Some((b, a))
    } else {
        None
    }
}

fn month_and_day(a: u64, da: u8, b: u64, db: u8) -> (r: Option<(u8, u8)>)
    ensures
        match month_day_of(a as int, da as int, b as int, db as int) {
            Some((m, d)) => r matches Some((rm, rd)) && rm == m && rd == d,
            None => r is None,
        },
        r matches Some((m, d)) ==> 1 <= m <= 12 && 1 <= d <= 31,
{
    if da > 2 || db > 2 {
        return None;
    }
    if 1 <= a && a <= 12 && 1 <= b && b <= 31 {
        Some((a as u8, b as u8))
    } else if 1 <= b && b <= 12 && 1 <= a && a <= 31 {
        Some((b as u8, a as u8))
    } else {
        None
    }
}

pub open spec fn date_parts_wf(p: (YearSpec, u8, DaySpec)) -> bool {
    p.0.wf() && 1 <= p.1 <= 12 && p.2.wf()
}

/// The separators of numeric dates: `/`, `-` and `.`.
pub open spec fn date_separator(c: u8) -> bool {
    c == 47 || c == 45 || c == 46
}

/// The month and day of the numbers at `i` and `j`, read by `month_day_of`.
pub open spec fn numbers_month_day(t: Seq<Token>, i: int, j: int, hi: int) -> Option<(u8, DaySpec)> {
    match (num_s(t, i, hi), num_s(t, j, hi)) {
        (Some((a, da)), Some((b, db))) => match month_day_of(a as int, da as int, b as int, db as int) {
            Some((m, d)) => Some((m as u8, DaySpec::Num(d as u8))),
            None => None,
        },
        _ => None,
    }
}

/// Whether the separators at `i` and `j` are the same date separator.
pub open spec fn same_separators(t: Seq<Token>, i: int, j: int, hi: int) -> bool {
    &&& 0 <= i < hi
    &&& t[i] is Punct
    &&& date_separator(t[i]->Punct_0)
    &&& punct_is_s(t, j, hi, t[i]->Punct_0)
}

/// A numeric date: a year and then month and day, or month and day and then a
/// year, the three parts joined by one separator; month and day in either order
/// (see `month_day_of`), the year first where both readings exist.
pub open spec fn numeric_date_s(t: Seq<Token>, lo: int, hi: int) -> Option<(YearSpec, u8, DaySpec)> {
    if hi < lo + 5 || hi > lo + 6 {
        None
    } else {
        let ylen = hi - lo - 4;
        let year_first = match year_s(t, lo, lo + ylen, true) {
            Some(y) => if same_separators(t, lo + ylen, hi - 2, hi) {
                match numbers_month_day(t, lo + ylen + 1, hi - 1, hi) {
                    Some((m, d)) => Some((y, m, d)),
                    None => None,
                }
            } else {
                None
            },
            None => None,
        };
        if year_first is Some {
            year_first
        } else {
            match year_s(t, hi - ylen, hi, true) {
                Some(y) => if same_separators(t, lo + 1, lo + 3, hi) {
                    match numbers_month_day(t, lo, lo + 2, hi) {
                        Some((m, d)) => Some((y, m, d)),
                        None => None,
                    }
                } else {
                    None
                },
                None => None,
            }
        }
    }
}

/// A numeric date: year first or last, month before or after the day, the
/// parts joined by one of `/`, `-` and `.`.
fn numeric_date(t: &Vec<Token>, lo: usize, hi: usize) -> (r: Option<(YearSpec, u8, DaySpec)>)
    requires
        span_ok(t, lo, hi),
    ensures
        r == numeric_date_s(t@, lo as int, hi as int),
        r matches Some(p) ==> date_parts_wf(p),
{
    if hi < lo + 5 || hi > lo + 6 {
        return None;
    }
    let ylen = hi - lo - 4;
    if let Some(y) = year(t, lo, lo + ylen, true) {
        if let Token::Punct(sep) = t[lo + ylen] {
            if is_date_separator(sep) && is_punct(t, hi - 2, hi, sep) {
                if let (Some((a, da)), Some((b, db))) = (
                    num_at(t, lo + ylen + 1, hi),
                    num_at(t, hi - 1, hi),
                ) {
                    if let Some((m, d)) = month_and_day(a, da, b, db) {
                        return Some((y, m, DaySpec::Num(d)));
                    }
                }
            }
        }
    }
    if let Some(y) = year(t, hi - ylen, hi, true) {
        if let Token::Punct(sep) = t[lo + 1] {
            if is_date_separator(sep) && is_punct(t, lo + 3, hi, sep) {
                if let (Some((a, da)), Some((b, db))) = (num_at(t, lo, hi), num_at(t, lo + 2, hi)) {
                    if let Some((m, d)) = month_and_day(a, da, b, db) {
                        return Some((y, m, DaySpec::Num(d)));
                    }
                }
            }
        }
    }
    None
}

/// The date that the rules of `named_date_s` give with the day ending (or, in
/// "6 May 1969", the month standing) at `k`.
pub open spec fn named_date_at(t: Seq<Token>, lo: int, hi: int, k: int) -> Option<
    (YearSpec, u8, DaySpec),
> {
    let month_first = match (month_name_s(t, lo, hi), day_spec_s(t, lo + 1, k)) {
        (Some(m), Some(d)) => match year_s(
            t,
            if punct_is_s(t, k, hi, 44) {
                k + 1
            } else {
                k
            },
            hi,
            true,
        ) {
            Some(y) => Some((y, m, d)),
            None => None,
        },
        _ => None,
    };
    let day_first = match (month_name_s(t, k, hi), day_spec_s(t, lo, k)) {
        (Some(m), Some(d)) => match year_s(t, k + 1, hi, true) {
            Some(y) => Some((y, m, d)),
            None => None,
        },
        _ => None,
    };
    let of_month = if word_is_s(t, lo, hi, Kw::The) && word_is_s(t, k, hi, Kw::Of) {
        match (day_spec_s(t, lo + 1, k), month_name_s(t, k + 1, hi)) {
            (Some(d), Some(m)) => if k + 2 <= hi {
                match year_s(t, k + 2, hi, true) {
                    Some(y) => Some((y, m, d)),
                    None => None,
                }
            } else {
                None
            },
            _ => None,
        }
    } else {
        None
    };
    if month_first is Some {
        month_first
    } else if day_first is Some {
        day_first
    } else {
        of_month
    }
}

/// The first date that `named_date_at` gives at a split from `k` on.
pub open spec fn named_date_from(t: Seq<Token>, lo: int, hi: int, k: int) -> Option<
    (YearSpec, u8, DaySpec),
>
    decreases hi - k,
{
    if k >= hi {
        None
    } else if named_date_at(t, lo, hi, k) is Some {
        named_date_at(t, lo, hi, k)
    } else {
        named_date_from(t, lo, hi, k + 1)
    }
}

/// A date written with the month's name: "May 6, 1969" or "May 6 1969",
/// "6 May 1969", "the 6th of May 1969", "the ides of March 44 BC".
pub open spec fn named_date_s(t: Seq<Token>, lo: int, hi: int) -> Option<(YearSpec, u8, DaySpec)> {
    named_date_from(t, lo, hi, lo + 1)
}

fn named_date_split(t: &Vec<Token>, lo: usize, hi: usize, k: usize) -> (r: Option<
    (YearSpec, u8, DaySpec),
>)
    requires
        span_ok(t, lo, hi),
        lo < k < hi,
    ensures
        r == named_date_at(t@, lo as int, hi as int, k as int),
        r matches Some(p) ==> date_parts_wf(p),
{
    if let Some(m) = month_name(t, lo, hi) {
        if let Some(d) = day_spec(t, lo + 1, k) {
            let ys = if is_punct(t, k, hi, 44) {
                k + 1
            } else {
                k
            };
            if let Some(y) = year(t, ys, hi, true) {
                return Some((y, m, d));
            }
        }
    }
    if let Some(m) = month_name(t, k, hi) {
        if let Some(d) = day_spec(t, lo, k) {
            if let Some(y) = year(t, k + 1, hi, true) {
                return Some((y, m, d));
            }
        }
    }
    if is_word(t, lo, hi, Kw::The) && is_word(t, k, hi, Kw::Of) {
        if let (Some(d), Some(m)) = (day_spec(t, lo + 1, k), month_name(t, k + 1, hi)) {
            if k + 2 <= hi {
                if let Some(y) = year(t, k + 2, hi, true) {
                    return Some((y, m, d));
                }
            }
        }
    }
    None
}

fn named_date(t: &Vec<Token>, lo: usize, hi: usize) -> (r: Option<(YearSpec, u8, DaySpec)>)
    requires
        span_ok(t, lo, hi),
    ensures
        r == named_date_s(t@, lo as int, hi as int),
        r matches Some(p) ==> date_parts_wf(p),
{
    let mut k = lo + 1;
    while k < hi
        invariant
            span_ok(t, lo, hi),
            lo < k,
            named_date_from(t@, lo as int, hi as int, k as int) == named_date_s(
                t@,
                lo as int,
                hi as int,
            ),
        decreases hi - k,
    {
        if let Some(p) = named_date_split(t, lo, hi, k) {
            return Some(p);
        }
        k = k + 1;
    }
    None
}

/// Numeric and named dates.
pub open spec fn date_parts_s(t: Seq<Token>, lo: int, hi: int) -> Option<(YearSpec, u8, DaySpec)> {
    if numeric_date_s(t, lo, hi) is Some {
        numeric_date_s(t, lo, hi)
    } else {
        named_date_s(t, lo, hi)
    }
}

/// A weekday, a comma at `k`, and a date.
pub open spec fn weekday_date_at(t: Seq<Token>, lo: int, hi: int, k: int) -> Option<Moment> {
    if punct_is_s(t, k, hi, 44) {
        match (weekday_s(t, lo, k), date_parts_s(t, k + 1, hi)) {
            (Some(w), Some((y, m, d))) => Some(
                Moment::Date { year: y, month: m, day: d, weekday: Some(w), time: None },
            ),
            _ => None,
        }
    } else {
        None
    }
}

pub open spec fn weekday_date_from(t: Seq<Token>, lo: int, hi: int, k: int) -> Option<Moment>
    decreases hi - k,
{
    if k >= hi {
        None
    } else if weekday_date_at(t, lo, hi, k) is Some {
        weekday_date_at(t, lo, hi, k)
    } else {
        weekday_date_from(t, lo, hi, k + 1)
    }
}

/// A date with its year, perhaps after a weekday and a comma ("Tuesday, May 6, 1969").
pub open spec fn full_date_s(t: Seq<Token>, lo: int, hi: int) -> Option<Moment> {
    match date_parts_s(t, lo, hi) {
        Some((y, m, d)) => Some(Moment::Date { year: y, month: m, day: d, weekday: None, time: None }),
        None => weekday_date_from(t, lo, hi, lo + 1),
    }
}

fn date_parts(t: &Vec<Token>, lo: usize, hi: usize) -> (r: Option<(YearSpec, u8, DaySpec)>)
    requires
        span_ok(t, lo, hi),
    ensures
        r == date_parts_s(t@, lo as int, hi as int),
        r matches Some(p) ==> date_parts_wf(p),
{
    let parts = numeric_date(t, lo, hi);
    if parts.is_some() {
        parts
    } else {
        named_date(t, lo, hi)
    }
}

fn weekday_date_split(t: &Vec<Token>, lo: usize, hi: usize, k: usize) -> (r: Option<Moment>)
    requires
        span_ok(t, lo, hi),
        lo < k < hi,
    ensures
        r == weekday_date_at(t@, lo as int, hi as int, k as int),
        r matches Some(m) ==> m.wf() && m is Date && m->Date_time is None,
{
    if is_punct(t, k, hi, 44) {
        if let (Some(w), Some((y, m, d))) = (weekday(t, lo, k), date_parts(t, k + 1, hi)) {
            return Some(Moment::Date { year: y, month: m, day: d, weekday: Some(w), time: None });
        }
    }
    None
}

/// A date with its year, perhaps after a weekday and a comma.
fn full_date(t: &Vec<Token>, lo: usize, hi: usize) -> (r: Option<Moment>)
    requires
        span_ok(t, lo, hi),
    ensures
        r == full_date_s(t@, lo as int, hi as int),
        r matches Some(m) ==> m.wf() && m is Date && m->Date_time is None,
{
    if let Some((y, m, d)) = date_parts(t, lo, hi) {
        return Some(Moment::Date { year: y, month: m, day: d, weekday: None, time: None });
    }
    let mut k = lo + 1;
    while k < hi
        invariant
            span_ok(t, lo, hi),
            lo < k,
            date_parts_s(t@, lo as int, hi as int) is None,
            weekday_date_from(t@, lo as int, hi as int, k as int) == full_date_s(
                t@,
                lo as int,
                hi as int,
            ),
        decreases hi - k,
    {
        if let Some(m) = weekday_date_split(t, lo, hi, k) {
            return Some(m);
        }
        k = k + 1;
    }
    None
}

/// A month and day without a year: "5-15" or "5/15", "May 15th" or "May the
/// fifteenth", "15 May", "the ides of May".
pub open spec fn month_day_s(t: Seq<Token>, lo: int, hi: int) -> Option<Moment> {
    if hi == lo + 3 && (punct_is_s(t, lo + 1, hi, 45) || punct_is_s(t, lo + 1, hi, 47)) {
        match numbers_month_day(t, lo, lo + 2, hi) {
            Some((m, d)) => Some(Moment::MonthDay { month: m, day: d }),
            None => None,
        }
    } else if month_name_s(t, lo, hi) is Some {
        let ds = if word_is_s(t, lo + 1, hi, Kw::The) {
            lo + 2
        } else {
            lo + 1
        };
        match day_spec_s(t, ds, hi) {
            Some(d) => if ds <= hi {
                Some(Moment::MonthDay { month: month_name_s(t, lo, hi)->0, day: d })
            } else {
                None
            },
            None => None,
        }
    } else {
        let trailing = if hi >= lo + 2 {
            match (month_name_s(t, hi - 1, hi), day_spec_s(t, lo, hi - 1)) {
                (Some(m), Some(d)) => Some(Moment::MonthDay { month: m, day: d }),
                _ => None,
            }
        } else {
            None
        };
        if trailing is Some {
            trailing
        } else if hi >= lo + 4 && word_is_s(t, lo, hi, Kw::The) && word_is_s(t, hi - 2, hi, Kw::Of) {
            match (day_spec_s(t, lo + 1, hi - 2), month_name_s(t, hi - 1, hi)) {
                (Some(d), Some(m)) => Some(Moment::MonthDay { month: m, day: d }),
                _ => None,
            }
        } else {
            None
        }
    }
}

/// A month and day without a year: "5-15", "May 15th", "May the fifteenth",
/// "15 May", "the ides of May".
fn month_day(t: &Vec<Token>, lo: usize, hi: usize) -> (r: Option<Moment>)
    requires
        span_ok(t, lo, hi),
    ensures
        r == month_day_s(t@, lo as int, hi as int),
        r matches Some(m) ==> m.wf(),
{
    if hi == lo + 3 && (is_punct(t, lo + 1, hi, 45) || is_punct(t, lo + 1, hi, 47)) {
        if let (Some((a, da)), Some((b, db))) = (num_at(t, lo, hi), num_at(t, lo + 2, hi)) {
            if let Some((m, d)) = month_and_day(a, da, b, db) {
                return Some(Moment::MonthDay { month: m, day: DaySpec::Num(d) });
            }
        }
        return None;
    }
    if let Some(m) = month_name(t, lo, hi) {
        let ds = if is_word(t, lo + 1, hi, Kw::The) {
            lo + 2
        } else {
            lo + 1
        };
        if ds <= hi {
            if let Some(d) = day_spec(t, ds, hi) {
                return Some(Moment::MonthDay { month: m, day: d });
            }
        }
        return None;
    }
    if hi >= lo + 2 {
        if let Some(m) = month_name(t, hi - 1, hi) {
            if let Some(d) = day_spec(t, lo, hi - 1) {
                return Some(Moment::MonthDay { month: m, day: d });
            }
        }
    }
    if hi >= lo + 4 && is_word(t, lo, hi, Kw::The) && is_word(t, hi - 2, hi, Kw::Of) {
        if let (Some(d), Some(m)) = (day_spec(t, lo + 1, hi - 2), month_name(t, hi - 1, hi)) {
            return Some(Moment::MonthDay { month: m, day: d });
        }
    }
    None
}

/// A day that a time of day can be added to: "today", "tomorrow", "yesterday",
/// a weekday with or without "this", "next" or "last", or a date with its year.
pub open spec fn day_moment_s(t: Seq<Token>, lo: int, hi: int) -> Option<Moment> {
    if hi == lo + 1 && word_is_s(t, lo, hi, Kw::Today) {
        Some(Moment::DayAdverb { offset: 0, time: None })
    } else if hi == lo + 1 && word_is_s(t, lo, hi, Kw::Tomorrow) {
        Some(Moment::DayAdverb { offset: 1, time: None })
    } else if hi == lo + 1 && word_is_s(t, lo, hi, Kw::Yesterday) {
        Some(Moment::DayAdverb { offset: -1i8, time: None })
    } else if weekday_s(t, lo, hi) is Some {
        Some(Moment::NamedWeekday { relation: None, weekday: weekday_s(t, lo, hi)->0, time: None })
    } else if relation_s(t, lo, hi) is Some && weekday_s(t, lo + 1, hi) is Some {
        Some(
            Moment::NamedWeekday {
                relation: relation_s(t, lo, hi),
                weekday: weekday_s(t, lo + 1, hi)->0,
                time: None,
            },
        )
    } else {
        full_date_s(t, lo, hi)
    }
}

/// A day that a time of day can be added to: a date with its year, today,
/// tomorrow or yesterday, or a weekday with or without "this", "next" or "last".
fn day_moment(t: &Vec<Token>, lo: usize, hi: usize) -> (r: Option<Moment>)
    requires
        span_ok(t, lo, hi),
    ensures
        r == day_moment_s(t@, lo as int, hi as int),
        r matches Some(m) ==> m.wf() && with_time_ok(m),
{
    if hi == lo + 1 {
        if is_word(t, lo, hi, Kw::Today) {
            return Some(Moment::DayAdverb { offset: 0, time: None });
        }
        if is_word(t, lo, hi, Kw::Tomorrow) {
            return Some(Moment::DayAdverb { offset: 1, time: None });
        }
        if is_word(t, lo, hi, Kw::Yesterday) {
            return Some(Moment::DayAdverb { offset: -1, time: None });
        }
    }
    if let Some(w) = weekday(t, lo, hi) {
        return Some(Moment::NamedWeekday { relation: None, weekday: w, time: None });
    }
    if let Some(r) = relation(t, lo, hi) {
        if let Some(w) = weekday(t, lo + 1, hi) {
            return Some(Moment::NamedWeekday { relation: Some(r), weekday: w, time: None });
        }
    }
    full_date(t, lo, hi)
}

pub open spec fn with_time_ok(m: Moment) -> bool {
    match m {
        Moment::Date { time, .. } => time is None,
        Moment::DayAdverb { time, .. } => time is None,
        Moment::NamedWeekday { time, .. } => time is None,
        _ => false,
    }
}

/// A day moment at a time of day.
pub open spec fn with_time_s(m: Moment, time: TimeOfDay) -> Moment {
    match m {
        Moment::Date { year, month, day, weekday, .. } => Moment::Date {
            year,
            month,
            day,
            weekday,
            time: Some(time),
        },
        Moment::DayAdverb { offset, .. } => Moment::DayAdverb { offset, time: Some(time) },
        Moment::NamedWeekday { relation, weekday, .. } => Moment::NamedWeekday {
            relation,
            weekday,
            time: Some(time),
        },
        other => other,
    }
}

fn with_time(m: Moment, time: TimeOfDay) -> (r: Moment)
    requires
        m.wf(),
        with_time_ok(m),
        time.wf(),
    ensures
        r == with_time_s(m, time),
        r.wf(),
{
    match m {
        Moment::Date { year, month, day, weekday, .. } => Moment::Date {
            year,
            month,
            day,
            weekday,
            time: Some(time),
        },
        Moment::DayAdverb { offset, .. } => Moment::DayAdverb { offset, time: Some(time) },
        Moment::NamedWeekday { relation, weekday, .. } => Moment::NamedWeekday {
            relation,
            weekday,
            time: Some(time),
        },
        other => other,
    }
}

/// Where the time of day starts in `lo..hi`: after "at", if it comes first.
pub open spec fn time_start(t: Seq<Token>, lo: int, hi: int) -> int {
    if word_is_s(t, lo, hi, Kw::At) {
        lo + 1
    } else {
        lo
    }
}

/// A time of day ending at `k` and then a day (after "on", perhaps), or a day
/// ending at `k` and then a time of day (after "at", perhaps).
pub open spec fn timed_day_at(t: Seq<Token>, lo: int, hi: int, k: int) -> Option<Moment> {
    let ts = time_start(t, lo, hi);
    let ds = if word_is_s(t, k, hi, Kw::On) {
        k + 1
    } else {
        k
    };
    let time_first = match time_spec(t.subrange(ts, k)) {
        Some(time) => if ds < hi {
            match day_moment_s(t, ds, hi) {
                Some(day) => Some(with_time_s(day, time)),
                None => None,
            }
        } else {
            None
        },
        None => None,
    };
    let ts2 = if word_is_s(t, k, hi, Kw::At) {
        k + 1
    } else {
        k
    };
    if time_first is Some {
        time_first
    } else {
        match day_moment_s(t, lo, k) {
            Some(day) => if ts2 < hi {
                match time_spec(t.subrange(ts2, hi)) {
                    Some(time) => Some(with_time_s(day, time)),
                    None => None,
                }
            } else {
                None
            },
            None => None,
        }
    }
}

pub open spec fn timed_day_from(t: Seq<Token>, lo: int, hi: int, k: int) -> Option<Moment>
    decreases hi - k,
{
    if k >= hi {
        None
    } else if timed_day_at(t, lo, hi, k) is Some {
        timed_day_at(t, lo, hi, k)
    } else {
        timed_day_from(t, lo, hi, k + 1)
    }
}

/// A time of day together with a day, in either order: "3 pm on Friday",
/// "at 15:30 on 5-6-69", "noon yesterday", "1969-05-06 at 1PM".
pub open spec fn timed_day_s(t: Seq<Token>, lo: int, hi: int) -> Option<Moment> {
    timed_day_from(t, lo, hi, time_start(t, lo, hi) + 1)
}

fn timed_day_split(t: &Vec<Token>, lo: usize, hi: usize, k: usize) -> (r: Option<Moment>)
    requires
        span_ok(t, lo, hi),
        time_start(t@, lo as int, hi as int) < k < hi,
    ensures
        r == timed_day_at(t@, lo as int, hi as int, k as int),
        r matches Some(m) ==> m.wf(),
{
    let ts = if is_word(t, lo, hi, Kw::At) {
        lo + 1
    } else {
        lo
    };
    if let Some(time) = time_of_day(t, ts, k) {
        let ds = if is_word(t, k, hi, Kw::On) {
            k + 1
        } else {
            k
        };
        if ds < hi {
            if let Some(day) = day_moment(t, ds, hi) {
                return Some(with_time(day, time));
            }
        }
    }
    if let Some(day) = day_moment(t, lo, k) {
        let ts2 = if is_word(t, k, hi, Kw::At) {
            k + 1
        } else {
            k
        };
        if ts2 < hi {
            if let Some(time) = time_of_day(t, ts2, hi) {
                return Some(with_time(day, time));
            }
        }
    }
    None
}

fn timed_day(t: &Vec<Token>, lo: usize, hi: usize) -> (r: Option<Moment>)
    requires
        span_ok(t, lo, hi),
    ensures
        r == timed_day_s(t@, lo as int, hi as int),
        r matches Some(m) ==> m.wf(),
{
    let ts = if is_word(t, lo, hi, Kw::At) {
        lo + 1
    } else {
        lo
    };
    let mut k = ts + 1;
    while k < hi
        invariant
            span_ok(t, lo, hi),
            ts == time_start(t@, lo as int, hi as int),
            lo <= ts < k,
            timed_day_from(t@, lo as int, hi as int, k as int) == timed_day_s(
                t@,
                lo as int,
                hi as int,
            ),
        decreases hi - k,
    {
        if let Some(m) = timed_day_split(t, lo, hi, k) {
            return Some(m);
        }
        k = k + 1;
    }
    None
}

/// A count of units at `i`: a number up to `MAX_COUNT`, a number word, or "a" or "an".
pub open spec fn count_s(t: Seq<Token>, i: int, hi: int) -> Option<u32> {
    match num_s(t, i, hi) {
        Some((v, _)) => if v <= MAX_COUNT {
            Some(v as u32)
        } else {
            None
        },
        None => if 0 <= i < hi {
            match t[i] {
                Token::Word(Kw::Cardinal(n)) => Some(n as u32),
                Token::Word(Kw::An) => Some(1),
                Token::Letter { ch: 97, upper: false } => Some(1),
                _ => None,
            }
        } else {
            None
        },
    }
}

/// A count of units: a number, a number word, or "a" or "an".
fn count(t: &Vec<Token>, i: usize, hi: usize) -> (r: Option<u32>)
    requires
        hi <= t@.len() < 1_000_000_000,
        tokens_wf(t@),
    ensures
        r == count_s(t@, i as int, hi as int),
        r matches Some(c) ==> c <= MAX_COUNT,
{
    if let Some((v, _)) = num_at(t, i, hi) {
        if v <= MAX_COUNT as u64 {
            return Some(v as u32);
        }
        return None;
    }
    if i < hi {
        match t[i] {
            Token::Word(Kw::Cardinal(n)) => {
                assert(t@[i as int].wf());
                Some(n as u32)
            },
            Token::Word(Kw::An) => Some(1),
            Token::Letter { ch: 97, upper: false } => Some(1),
            _ => None,
        }
    } else {
        None
    }
}

/// A unit word at `i`; "second" is the unit as well as the ordinal.
pub open spec fn unit_s(t: Seq<Token>, i: int, hi: int) -> Option<Unit> {
    if 0 <= i < hi {
        match t[i] {
            Token::Word(Kw::Unit(u)) => Some(u),
            Token::Word(Kw::Ordinal(2)) => Some(Unit::Second),
            _ => None,
        }
    } else {
        None
    }
}

fn unit(t: &Vec<Token>, i: usize, hi: usize) -> (r: Option<Unit>)
    requires
        hi <= t@.len() < 1_000_000_000,
    ensures
        r == unit_s(t@, i as int, hi as int),
{
    if i < hi {
        match t[i] {
            Token::Word(Kw::Unit(u)) => Some(u),
            Token::Word(Kw::Ordinal(2)) => Some(Unit::Second),
            _ => None,
        }
    } else {
        None
    }
}

/// The placement word after a count and unit ("before", "after", "before and
/// after", "around") and where the moment it is placed against starts.
pub open spec fn placement_s(t: Seq<Token>, lo: int, hi: int) -> (Option<Placement>, int) {
    if word_is_s(t, lo + 2, hi, Kw::Before) && word_is_s(t, lo + 3, hi, Kw::And) && word_is_s(
        t,
        lo + 4,
        hi,
        Kw::After,
    ) {
        (Some(Placement::BeforeAndAfter), lo + 5)
    } else if word_is_s(t, lo + 2, hi, Kw::Before) {
        (Some(Placement::Before), lo + 3)
    } else if word_is_s(t, lo + 2, hi, Kw::After) {
        (Some(Placement::After), lo + 3)
    } else if word_is_s(t, lo + 2, hi, Kw::Around) {
        (Some(Placement::Around), lo + 3)
    } else {
        (None, hi)
    }
}

/// A moment: exactly the tokens `lo..hi`, read by the first of these rules that
/// takes them: "now"; a name of the first or the last moment of time; a day that
/// takes a time; a time of day, perhaps after "at"; a time with a day; a month,
/// year or period; a month and day; a day of the month; a count of units "ago",
/// "from now", or placed against another moment; "the start" (or "beginning")
/// or "the end" "of" another moment.
pub open spec fn moment_s(t: Seq<Token>, lo: int, hi: int) -> Option<Moment>
    decreases hi - lo,
{
    if lo >= hi {
        None
    } else if simple_moment_s(t, lo, hi) is Some {
        simple_moment_s(t, lo, hi)
    } else {
        let displaced = if hi >= lo + 3 && count_s(t, lo, hi) is Some && unit_s(t, lo + 1, hi) is Some {
            let c = count_s(t, lo, hi)->0;
            let u = unit_s(t, lo + 1, hi)->0;
            if hi == lo + 3 && word_is_s(t, lo + 2, hi, Kw::Ago) {
                Some(Moment::FromNow { count: c, unit: u, forward: false })
            } else if hi == lo + 4 && word_is_s(t, lo + 2, hi, Kw::From) && word_is_s(
                t,
                lo + 3,
                hi,
                Kw::Now,
            ) {
                Some(Moment::FromNow { count: c, unit: u, forward: true })
            } else if placement_s(t, lo, hi).0 is Some && placement_s(t, lo, hi).1 < hi {
                match moment_s(t, placement_s(t, lo, hi).1, hi) {
                    Some(base) => Some(
                        Moment::Displaced {
                            count: c,
                            unit: u,
                            placement: placement_s(t, lo, hi).0->0,
                            base: Box::new(base),
                        },
                    ),
                    None => None,
                }
            } else {
                None
            }
        } else {
            None
        };
        if displaced is Some {
            displaced
        } else if hi >= lo + 4 && word_is_s(t, lo, hi, Kw::The) && word_is_s(t, lo + 2, hi, Kw::Of) {
            let start = if word_is_s(t, lo + 1, hi, Kw::Start) || word_is_s(
                t,
                lo + 1,
                hi,
                Kw::Beginning,
            ) {
                match moment_s(t, lo + 3, hi) {
                    Some(base) => Some(Moment::StartOf { base: Box::new(base) }),
                    None => None,
                }
            } else {
                None
            };
            if start is Some {
                start
            } else if word_is_s(t, lo + 1, hi, Kw::End) {
                match moment_s(t, lo + 3, hi) {
                    Some(base) => Some(Moment::EndOf { base: Box::new(base) }),
                    None => None,
                }
            } else {
                None
            }
        } else {
            None
        }
    }
}

/// The rules of `moment_s` that read no other moment.
pub open spec fn simple_moment_s(t: Seq<Token>, lo: int, hi: int) -> Option<Moment> {
    if hi == lo + 1 && word_is_s(t, lo, hi, Kw::Now) {
        Some(Moment::Now)
    } else if first_moment_s(t, lo, hi) {
        Some(Moment::Beginning)
    } else if last_moment_s(t, lo, hi) {
        Some(Moment::End)
    } else if day_moment_s(t, lo, hi) is Some {
        day_moment_s(t, lo, hi)
    } else if time_spec(t.subrange(lo, hi)) is Some {
        Some(Moment::TimeOnly { time: time_spec(t.subrange(lo, hi))->0 })
    } else if word_is_s(t, lo, hi, Kw::At) && time_spec(t.subrange(lo + 1, hi)) is Some {
        Some(Moment::TimeOnly { time: time_spec(t.subrange(lo + 1, hi))->0 })
    } else if timed_day_s(t, lo, hi) is Some {
        timed_day_s(t, lo, hi)
    } else if calendar_span_s(t, lo, hi) is Some {
        calendar_span_s(t, lo, hi)
    } else if month_day_s(t, lo, hi) is Some {
        month_day_s(t, lo, hi)
    } else if day_of_month_s(t, lo, hi) is Some {
        day_of_month_s(t, lo, hi)
    } else {
        None
    }
}

fn placement(t: &Vec<Token>, lo: usize, hi: usize) -> (r: (Option<Placement>, usize))
    requires
        span_ok(t, lo, hi),
        hi >= lo + 3,
    ensures
        r.0 == placement_s(t@, lo as int, hi as int).0,
        r.1 == placement_s(t@, lo as int, hi as int).1,
{
    if is_word(t, lo + 2, hi, Kw::Before) && is_word(t, lo + 3, hi, Kw::And) && is_word(
        t,
        lo + 4,
        hi,
        Kw::After,
    ) {
        (Some(Placement::BeforeAndAfter), lo + 5)
    } else if is_word(t, lo + 2, hi, Kw::Before) {
        (Some(Placement::Before), lo + 3)
    } else if is_word(t, lo + 2, hi, Kw::After) {
        (Some(Placement::After), lo + 3)
    } else if is_word(t, lo + 2, hi, Kw::Around) {
        (Some(Placement::Around), lo + 3)
    } else {
        (None, hi)
    }
}

fn simple_moment(t: &Vec<Token>, lo: usize, hi: usize) -> (r: Option<Moment>)
    requires
        span_ok(t, lo, hi),
        lo < hi,
    ensures
        r == simple_moment_s(t@, lo as int, hi as int),
        r matches Some(m) ==> m.wf(),
{
    if hi == lo + 1 && is_word(t, lo, hi, Kw::Now) {
        return Some(Moment::Now);
    }
    if is_first_moment(t, lo, hi) {
        return Some(Moment::Beginning);
    }
    if is_last_moment(t, lo, hi) {
        return Some(Moment::End);
    }
    if let Some(m) = day_moment(t, lo, hi) {
        return Some(m);
    }
    if let Some(time) = time_of_day(t, lo, hi) {
        return Some(Moment::TimeOnly { time });
    }
    if is_word(t, lo, hi, Kw::At) {
        if let Some(time) = time_of_day(t, lo + 1, hi) {
            return Some(Moment::TimeOnly { time });
        }
    }
    if let Some(m) = timed_day(t, lo, hi) {
        return Some(m);
    }
    if let Some(m) = calendar_span(t, lo, hi) {
        return Some(m);
    }
    if let Some(m) = month_day(t, lo, hi) {
        return Some(m);
    }
    if let Some(m) = day_of_month(t, lo, hi) {
        return Some(m);
    }
    None
}

/// A moment: exactly the tokens `lo..hi`.
pub fn moment(t: &Vec<Token>, lo: usize, hi: usize) -> (r: Option<Moment>)
    requires
        span_ok(t, lo, hi),
    ensures
        r == moment_s(t@, lo as int, hi as int),
        r matches Some(m) ==> m.wf(),
    decreases hi - lo,
{
    if lo >= hi {
        return None;
    }
    if let Some(m) = simple_moment(t, lo, hi) {
        return Some(m);
    }
    if hi >= lo + 3 {
        if let (Some(c), Some(u)) = (count(t, lo, hi), unit(t, lo + 1, hi)) {
            if hi == lo + 3 && is_word(t, lo + 2, hi, Kw::Ago) {
                return Some(Moment::FromNow { count: c, unit: u, forward: false });
            }
            if hi == lo + 4 && is_word(t, lo + 2, hi, Kw::From) && is_word(t, lo + 3, hi, Kw::Now) {
                return Some(Moment::FromNow { count: c, unit: u, forward: true });
            }
            let (place, bs) = placement(t, lo, hi);
            if let Some(p) = place {
                if bs < hi {
                    match moment(t, bs, hi) {
                        Some(base) => {
                            return Some(
                                Moment::Displaced { count: c, unit: u, placement: p, base: Box::new(base) },
                            );
                        },
                        None => {},
                    }
                }
            }
        }
    }
    if hi >= lo + 4 && is_word(t, lo, hi, Kw::The) && is_word(t, lo + 2, hi, Kw::Of) {
        if is_word(t, lo + 1, hi, Kw::Start) || is_word(t, lo + 1, hi, Kw::Beginning) {
            if let Some(base) = moment(t, lo + 3, hi) {
                return Some(Moment::StartOf { base: Box::new(base) });
            }
        }
        if is_word(t, lo + 1, hi, Kw::End) {
            if let Some(base) = moment(t, lo + 3, hi) {
                return Some(Moment::EndOf { base: Box::new(base) });
            }
        }
    }
    None
}

/// Months, years and periods: a month's name alone ("June") or with a year
/// ("May 1969"); a year in full ("2000"); "this", "next", "last" or "the" with a
/// period ("this week", "the week"); "this", "next" or "last" with a month's
/// name; and "pay period" alone.
pub open spec fn calendar_span_s(t: Seq<Token>, lo: int, hi: int) -> Option<Moment> {
    if month_name_s(t, lo, hi) is Some {
        let m = month_name_s(t, lo, hi)->0;
        if hi == lo + 1 {
            Some(Moment::NamedMonth { relation: None, month: m })
        } else {
            match year_s(t, lo + 1, hi, false) {
                Some(y) => Some(Moment::MonthOfYear { year: y, month: m }),
                None => None,
            }
        }
    } else if year_s(t, lo, hi, false) is Some {
        Some(Moment::Year { year: year_s(t, lo, hi, false)->0 })
    } else {
        let rel = if word_is_s(t, lo, hi, Kw::The) {
            Some(Relation::This)
        } else {
            relation_s(t, lo, hi)
        };
        match rel {
            Some(r) => if span_s(t, lo + 1, hi) is Some {
                Some(Moment::Period { relation: r, span: span_s(t, lo + 1, hi)->0 })
            } else if hi == lo + 2 && !word_is_s(t, lo, hi, Kw::The) && month_name_s(t, lo + 1, hi) is Some {
                Some(Moment::NamedMonth { relation: Some(r), month: month_name_s(t, lo + 1, hi)->0 })
            } else {
                None
            },
            None => if span_s(t, lo, hi) == Some(Span::PayPeriod) {
                Some(Moment::Period { relation: Relation::This, span: Span::PayPeriod })
            } else {
                None
            },
        }
    }
}

/// Months, years and periods: "May 1969", "2000", "this week", "next April",
/// "the week", "pay period", "June".
fn calendar_span(t: &Vec<Token>, lo: usize, hi: usize) -> (r: Option<Moment>)
    requires
        span_ok(t, lo, hi),
        lo < hi,
    ensures
        r == calendar_span_s(t@, lo as int, hi as int),
        r matches Some(m) ==> m.wf(),
{
    if let Some(m) = month_name(t, lo, hi) {
        if hi == lo + 1 {
            return Some(Moment::NamedMonth { relation: None, month: m });
        }
        if let Some(y) = year(t, lo + 1, hi, false) {
            return Some(Moment::MonthOfYear { year: y, month: m });
        }
        return None;
    }
    if let Some(y) = year(t, lo, hi, false) {
        return Some(Moment::Year { year: y });
    }
    let rel = if is_word(t, lo, hi, Kw::The) {
        Some(Relation::This)
    } else {
        relation(t, lo, hi)
    };
    match rel {
        Some(r) => {
            if let Some(s) = span_word(t, lo + 1, hi) {
                return Some(Moment::Period { relation: r, span: s });
            }
            if hi == lo + 2 && !is_word(t, lo, hi, Kw::The) {
                if let Some(m) = month_name(t, lo + 1, hi) {
                    return Some(Moment::NamedMonth { relation: Some(r), month: m });
                }
            }
            None
        },
        None => match span_word(t, lo, hi) {
            Some(Span::PayPeriod) => Some(Moment::Period { relation: Relation::This, span: Span::PayPeriod }),
            _ => None,
        },
    }
}

/// A weekday, "the" at `k`, and a day of the month.
pub open spec fn weekday_the_at(t: Seq<Token>, lo: int, hi: int, k: int) -> Option<Moment> {
    if word_is_s(t, k, hi, Kw::The) {
        match (weekday_s(t, lo, k), day_number_s(t, k + 1, hi)) {
            (Some(w), Some(d)) => Some(Moment::DayOfMonth { day: d, weekday: Some(w) }),
            _ => None,
        }
    } else {
        None
    }
}

pub open spec fn weekday_the_from(t: Seq<Token>, lo: int, hi: int, k: int) -> Option<Moment>
    decreases hi - k,
{
    if k >= hi {
        None
    } else if weekday_the_at(t, lo, hi, k) is Some {
        weekday_the_at(t, lo, hi, k)
    } else {
        weekday_the_from(t, lo, hi, k + 1)
    }
}

/// A day of the month alone: "the 31st", "the fifteenth", "Friday the 13th".
pub open spec fn day_of_month_s(t: Seq<Token>, lo: int, hi: int) -> Option<Moment> {
    if word_is_s(t, lo, hi, Kw::The) {
        match day_number_s(t, lo + 1, hi) {
            Some(d) => Some(Moment::DayOfMonth { day: d, weekday: None }),
            None => None,
        }
    } else {
        weekday_the_from(t, lo, hi, lo + 1)
    }
}

fn weekday_the_split(t: &Vec<Token>, lo: usize, hi: usize, k: usize) -> (r: Option<Moment>)
    requires
        span_ok(t, lo, hi),
        lo < k < hi,
    ensures
        r == weekday_the_at(t@, lo as int, hi as int, k as int),
        r matches Some(m) ==> m.wf(),
{
    if is_word(t, k, hi, Kw::The) {
        if let (Some(w), Some(d)) = (weekday(t, lo, k), day_number_words(t, k + 1, hi)) {
            return Some(Moment::DayOfMonth { day: d, weekday: Some(w) });
        }
    }
    None
}

fn day_of_month(t: &Vec<Token>, lo: usize, hi: usize) -> (r: Option<Moment>)
    requires
        span_ok(t, lo, hi),
    ensures
        r == day_of_month_s(t@, lo as int, hi as int),
        r matches Some(m) ==> m.wf(),
{
    if is_word(t, lo, hi, Kw::The) {
        if let Some(d) = day_number_words(t, lo + 1, hi) {
            return Some(Moment::DayOfMonth { day: d, weekday: None });
        }
        return None;
    }
    let mut k = lo + 1;
    while k < hi
        invariant
            span_ok(t, lo, hi),
            lo < k,
            !word_is_s(t@, lo as int, hi as int, Kw::The),
            weekday_the_from(t@, lo as int, hi as int, k as int) == day_of_month_s(
                t@,
                lo as int,
                hi as int,
            ),
        decreases hi - k,
    {
        if let Some(m) = weekday_the_split(t, lo, hi, k) {
            return Some(m);
        }
        k = k + 1;
    }
    None
}

/// The dashes from `j` on.
pub open spec fn dash_run(t: Seq<Token>, j: int, hi: int) -> int
    decreases hi - j,
{
    if j < hi && punct_is_s(t, j, hi, 45) {
        1 + dash_run(t, j + 1, hi)
    } else {
        0
    }
}

/// A connector of two moments at `k`, its length and whether it includes the
/// second moment: "through" (also "thru", "until", "till"), "to", or dashes,
/// which include it, and "up to", which does not.
pub open spec fn connector_s(t: Seq<Token>, k: int, hi: int) -> Option<(int, bool)> {
    if word_is_s(t, k, hi, Kw::Through) || word_is_s(t, k, hi, Kw::To) {
        Some((1, true))
    } else if word_is_s(t, k, hi, Kw::Up) && word_is_s(t, k + 1, hi, Kw::To) {
        Some((2, false))
    } else if dash_run(t, k, hi) > 0 {
        Some((dash_run(t, k, hi), true))
    } else {
        None
    }
}

/// The number of tokens of a connector between two moments at `k`, if one
/// stands there: "through", "to", "up to" or a run of dashes; and whether it
/// includes the second moment.
fn connector(t: &Vec<Token>, k: usize, hi: usize) -> (r: Option<(usize, bool)>)
    requires
        k <= hi <= t@.len() < 1_000_000_000,
    ensures
        r matches Some((len, _)) ==> 1 <= len <= hi - k,
        match connector_s(t@, k as int, hi as int) {
            Some((len, inc)) => r matches Some((rl, ri)) && rl == len && ri == inc,
            None => r is None,
        },
{
    if is_word(t, k, hi, Kw::Through) || is_word(t, k, hi, Kw::To) {
        return Some((1, true));
    }
    if is_word(t, k, hi, Kw::Up) && is_word(t, k + 1, hi, Kw::To) {
        return Some((2, false));
    }
    let mut j = k;
    while j < hi && is_punct(t, j, hi, 45)
        invariant
            k <= j <= hi,
            hi <= t@.len() < 1_000_000_000,
            dash_run(t@, k as int, hi as int) == (j - k) + dash_run(t@, j as int, hi as int),
        decreases hi - j,
    {
        j = j + 1;
    }
    if j > k {
        Some((j - k, true))
    } else {
        None
    }
}

/// Two moments joined by a connector at `k`.
pub open spec fn range_at(t: Seq<Token>, k: int) -> Option<Expr> {
    match connector_s(t, k, t.len() as int) {
        Some((len, inclusive)) => match (moment_s(t, 0, k), moment_s(t, k + len, t.len() as int)) {
            (Some(first), Some(last)) => Some(Expr::Range { first, last, inclusive }),
            _ => None,
        },
        None => None,
    }
}

pub open spec fn range_from(t: Seq<Token>, k: int) -> Option<Expr>
    decreases t.len() - k,
{
    if k >= t.len() {
        None
    } else if range_at(t, k) is Some {
        range_at(t, k)
    } else {
        range_from(t, k + 1)
    }
}

/// The expression that the tokens form, by the first of these rules that takes
/// them all: a name of all time; "since" or "after" and a moment; a moment; two
/// moments joined by a connector, at the first connector where both sides are
/// moments.
pub open spec fn expression_s(t: Seq<Token>) -> Option<Expr> {
    let n = t.len() as int;
    if n >= 1_000_000_000 {
        None
    } else if universal_s(t, 0, n) {
        Some(Expr::Universal)
    } else if (word_is_s(t, 0, n, Kw::Since) || word_is_s(t, 0, n, Kw::After)) && moment_s(t, 1, n) is Some {
        Some(Expr::Since(moment_s(t, 1, n)->0))
    } else if moment_s(t, 0, n) is Some {
        Some(Expr::Single(moment_s(t, 0, n)->0))
    } else {
        range_from(t, 1)
    }
}

fn range_split(t: &Vec<Token>, k: usize) -> (r: Option<Expr>)
    requires
        tokens_wf(t@),
        t@.len() < 1_000_000_000,
        1 <= k < t@.len(),
    ensures
        r == range_at(t@, k as int),
        r matches Some(e) ==> e.wf(),
{
    let n = t.len();
    if let Some((len, inclusive)) = connector(t, k, n) {
        if let Some(first) = moment(t, 0, k) {
            if let Some(last) = moment(t, k + len, n) {
                return Some(Expr::Range { first, last, inclusive });
            }
        }
    }
    None
}

/// The expression that the tokens form, if any.
pub fn expression(t: &Vec<Token>) -> (r: Option<Expr>)
    requires
        tokens_wf(t@),
    ensures
        r == expression_s(t@),
        r matches Some(e) ==> e.wf(),
{
    let n = t.len();
    if n >= 1_000_000_000 {
        return None;
    }
    if is_universal(t, 0, n) {
        return Some(Expr::Universal);
    }
    if is_word(t, 0, n, Kw::Since) || is_word(t, 0, n, Kw::After) {
        if let Some(m) = moment(t, 1, n) {
            return Some(Expr::Since(m));
        }
    }
    if let Some(m) = moment(t, 0, n) {
        return Some(Expr::Single(m));
    }
    let mut k: usize = 1;
    while k < n
        invariant
            n == t@.len() < 1_000_000_000,
            tokens_wf(t@),
            1 <= k,
            range_from(t@, k as int) == expression_s(t@),
        decreases n - k,
    {
        if let Some(e) = range_split(t, k) {
            return Some(e);
        }
        k = k + 1;
    }
    None
}

} // verus!
