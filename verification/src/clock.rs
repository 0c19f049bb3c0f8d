//! Times of day and spans in whole minutes, and the texts that stand for
//! them.
//!
//! A time of day is a number of minutes since midnight, below
//! `MINUTES_PER_DAY`. Reading a text is left to `chrono` and `humantime`;
//! writing one is done here.

use vstd::prelude::*;
use crate::components::home::error::{
    minutes_outcome, time_outcome, EditError, EditErrorView,
};
use crate::text::{decimal, decimal2, digit_char, digit_value, push_decimal2, value_of_digit};

verus! {

pub const MINUTES_PER_DAY: u32 = 1440;

/// The most minutes that one block can last: the most that the store can
/// hold for an entry.
pub const MAX_DURATION_MINS: u32 = 0x7fff_ffff;

/// The seconds of a year of 365.25 days, the longest unit in which a span
/// is written.
pub const LONGEST_UNIT_SECS: u64 = 31_557_600;

/// The most seconds that one number can add in a unit shorter than a
/// second: counted in nanoseconds, such a number stays within the `u64`
/// range.
pub const SHORT_UNIT_SECS: u64 = 18_446_744_074;

/// From this number on, a number of years is out of the `u64` range of
/// seconds.
pub const NUMBER_LIMIT: u64 = 584_542_046_090;

/// What `chrono::NaiveTime::parse_from_str` makes of `text` under the format
/// `fmt`: the hour and the minute of the time it reads, or the message of
/// the error it reports.
pub uninterp spec fn clock_reading(text: Seq<char>, fmt: Seq<char>) -> Result<(u32, u32), Seq<char>>;

/// What `str::parse::<chrono::NaiveTime>` makes of `text`: the hour and the
/// minute of the time it reads, if it reads one.
pub uninterp spec fn stored_clock_reading(text: Seq<char>) -> Option<(u32, u32)>;

/// What `humantime::parse_duration` makes of `text`: the whole seconds and
/// the nanoseconds beyond them of the span it reads, or the message of the
/// error it reports.
pub uninterp spec fn span_reading(text: Seq<char>) -> Result<(u64, u32), Seq<char>>;

/// What `humantime::format_duration` writes for a span of `seconds` whole
/// seconds.
pub uninterp spec fn span_text(seconds: u64) -> Seq<char>;

/// A reading of a clock text, with the error's message as plain characters.
pub open spec fn clock_outcome(r: Result<(u32, u32), String>) -> Result<(u32, u32), Seq<char>> {
    match r {
        Ok(hm) => Ok(hm),
        Err(msg) => Err(msg@),
    }
}

/// A reading of a span's text, with the error's message as plain characters.
pub open spec fn span_outcome(r: Result<(u64, u32), String>) -> Result<(u64, u32), Seq<char>> {
    match r {
        Ok(d) => Ok(d),
        Err(msg) => Err(msg@),
    }
}

/// Whether `c` is a letter in which units are written: a letter of the
/// basic alphabet or the micro sign.
pub open spec fn is_unit_letter(c: char) -> bool {
    ('a' <= c && c <= 'z') || ('A' <= c && c <= 'Z') || c == '\u{b5}'
}

/// Whether the unit that starts at `at` can only be one shorter than a
/// second: those begin with `n`, `u`, the micro sign, `ms` or `mil`, and no
/// unit of a second or more does.
pub open spec fn short_unit_at(text: Seq<char>, at: int) -> bool {
    let c = text[at];
    c == 'n' || c == 'u' || c == '\u{b5}' || (c == 'm' && at + 1 < text.len() && (text[at + 1]
        == 's' || (text[at + 1] == 'i' && at + 2 < text.len() && text[at + 2] == 'l')))
}

/// The most seconds that one number of a span's text can add to the span,
/// the fraction behind it included: in a short unit a fixed amount,
/// otherwise the number and one more, taken as years.
pub open spec fn most_seconds(number: nat, short: bool) -> nat {
    if short {
        SHORT_UNIT_SECS as nat
    } else {
        (number + 1) * (LONGEST_UNIT_SECS as nat)
    }
}

/// The most seconds that the numbers of `text` from `at` on can add up to,
/// where `number` has been read of the number at hand and `past_point`
/// says that its fraction has begun. A number is the digits since the last
/// unit, up to a point; it counts where its unit starts.
pub open spec fn reach_from(text: Seq<char>, at: int, number: nat, past_point: bool) -> nat
    decreases text.len() - at,
{
    if 0 <= at < text.len() {
        let c = text[at];
        if is_unit_letter(c) {
            reach_from(text, at + 1, 0, false) + if at > 0 && is_unit_letter(text[at - 1]) {
                0
            } else {
                most_seconds(number, short_unit_at(text, at))
            }
        } else if c == '.' {
            reach_from(text, at + 1, number, true)
        } else {
            match digit_value(c) {
                Some(d) => reach_from(
                    text,
                    at + 1,
                    if past_point {
                        number
                    } else {
                        number * 10 + d as nat
                    },
                    past_point,
                ),
                None => reach_from(text, at + 1, number, past_point),
            }
        }
    } else {
        0
    }
}

/// The span that `text` stands for, whatever its units are, stays below
/// the top of the `u64` range of seconds.
pub open spec fn within_reach(text: Seq<char>) -> bool {
    reach_from(text, 0, 0, false) < u64::MAX
}

/// Calls `chrono::NaiveTime::parse_from_str` and hands back the hour and the
/// minute of the time read, or the error's message. The contract names the
/// outcome and adds only that chrono's hours stay below 24 and its minutes
/// below 60.
#[verifier::external_body]
pub(crate) fn read_clock(text: &str, fmt: &str) -> (r: Result<(u32, u32), String>)
    ensures
        clock_outcome(r) == clock_reading(text@, fmt@),
        r matches Ok(hm) ==> hm.0 < 24 && hm.1 < 60,
{
    match chrono::NaiveTime::parse_from_str(text, fmt) {
        Ok(t) => Ok((chrono::Timelike::hour(&t), chrono::Timelike::minute(&t))),
        Err(e) => Err(e.to_string()),
    }
}

/// Calls `str::parse::<chrono::NaiveTime>`, which reads "HH:MM" with
/// optional seconds, and hands back the hour and the minute. The contract
/// names the outcome and adds only that chrono's hours stay below 24 and its
/// minutes below 60.
#[verifier::external_body]
pub(crate) fn read_stored_clock(text: &str) -> (r: Option<(u32, u32)>)
    ensures
        r == stored_clock_reading(text@),
        r matches Some(hm) ==> hm.0 < 24 && hm.1 < 60,
{
    match text.parse::<chrono::NaiveTime>() {
        Ok(t) => Some((chrono::Timelike::hour(&t), chrono::Timelike::minute(&t))),
        Err(_) => None,
    }
}

/// Calls `humantime::parse_duration` and hands back the span's whole seconds
/// and nanoseconds, or the error's message. The parser cannot build a span
/// whose seconds stand at the top of the `u64` range while its nanoseconds
/// make one second more, so only a text `within_reach` is handed to it.
/// The parser adds the span up number by number. A number in a unit of a
/// second or more adds its count times the unit, and its fraction less than
/// one unit more: at most what `most_seconds` gives for it. A number in a
/// unit shorter than a second is counted in nanoseconds within the `u64`
/// range, and so adds no more seconds than `SHORT_UNIT_SECS`. The sum of
/// all that is below the top for such a text.
#[verifier::external_body]
pub(crate) fn read_span(text: &str) -> (r: Result<(u64, u32), String>)
    requires
        within_reach(text@),
    ensures
        span_outcome(r) == span_reading(text@),
{
    match humantime::parse_duration(text) {
        Ok(d) => Ok((d.as_secs(), d.subsec_nanos())),
        Err(e) => Err(e.to_string()),
    }
}

/// Calls `humantime::format_duration` on a span of whole seconds and hands
/// back what it writes. The contract only names that text.
#[verifier::external_body]
pub(crate) fn write_span(seconds: u64) -> (text: String)
    ensures
        text@ == span_text(seconds),
{
    humantime::format_duration(std::time::Duration::from_secs(seconds)).to_string()
}

/// "HH:MM" for a number of minutes since midnight. Hours beyond 99 take
/// the digits they need.
pub open spec fn clock_text(minutes: nat) -> Seq<char> {
    decimal2(minutes / 60) + seq![':'] + decimal2(minutes % 60)
}

/// "HHMM", the form in which a time is typed.
pub open spec fn clock_digits(minutes: nat) -> Seq<char> {
    decimal2(minutes / 60) + decimal2(minutes % 60)
}

/// "HH:MM:SS" for a number of seconds.
pub open spec fn clock_text_seconds(seconds: nat) -> Seq<char> {
    decimal2(seconds / 3600) + seq![':'] + decimal2((seconds % 3600) / 60) + seq![':'] + decimal2(
        seconds % 60,
    )
}

pub fn minutes_to_string(minutes: u32) -> (text: String)
    ensures
        text@ == clock_text(minutes as nat),
{
    let mut out = String::new();
    push_decimal2(&mut out, (minutes / 60) as u64);
    out.push(':');
    push_decimal2(&mut out, (minutes % 60) as u64);
    out
}

pub fn minutes_to_digits(minutes: u32) -> (text: String)
    ensures
        text@ == clock_digits(minutes as nat),
{
    let mut out = String::new();
    push_decimal2(&mut out, (minutes / 60) as u64);
    push_decimal2(&mut out, (minutes % 60) as u64);
    out
}

/// Formats a span given in seconds as HH:MM:SS.
pub fn format_duration_hms(duration_secs: u64) -> (text: String)
    ensures
        text@ == clock_text_seconds(duration_secs as nat),
{
    let mut out = String::new();
    push_decimal2(&mut out, duration_secs / 3600);
    out.push(':');
    push_decimal2(&mut out, (duration_secs % 3600) / 60);
    out.push(':');
    push_decimal2(&mut out, duration_secs % 60);
    out
}

/// The number that a run of decimal digits stands for.
pub open spec fn digits_value(digits: Seq<char>) -> nat
    decreases digits.len(),
{
    if digits.len() == 0 {
        0
    } else {
        digits_value(digits.drop_last()) * 10 + match digit_value(digits.last()) {
            Some(d) => d as nat,
            None => 0,
        }
    }
}

pub open spec fn all_digits(text: Seq<char>) -> bool {
    forall|i: int| 0 <= i < text.len() ==> digit_value(#[trigger] text[i]).is_some()
}

/// The digits of `text`: all of it but a plus sign at its head.
pub open spec fn unsigned_digits(text: Seq<char>) -> Seq<char> {
    if text.len() > 0 && text[0] == '+' {
        text.skip(1)
    } else {
        text
    }
}

/// The number that `text` stands for, written as the parsers of the
/// unsigned integer types take it: digits, with or without a plus sign
/// before them. There is none where the number is above `max`.
pub open spec fn number_reading(text: Seq<char>, max: nat) -> Option<nat> {
    let digits = unsigned_digits(text);
    if digits.len() > 0 && all_digits(digits) && digits_value(digits) <= max {
        Some(digits_value(digits))
    } else {
        None
    }
}

/// Whether `text` is a number that fits in sixteen bits.
pub open spec fn is_u16_text(text: Seq<char>) -> bool {
    number_reading(text, u16::MAX as nat).is_some()
}

/// Reads `text` as a number that is at most `max`.
pub fn parse_number(text: &str, max: u32) -> (n: Option<u32>)
    ensures
        match n {
            Some(v) => number_reading(text@, max as nat) == Some(v as nat),
            None => number_reading(text@, max as nat).is_none(),
        },
{
    let len = text.unicode_len();
    if len == 0 {
        return None;
    }
    let first: usize = if text.get_char(0) == '+' {
        1
    } else {
        0
    };
    if first == len {
        return None;
    }
    let ghost digits = unsigned_digits(text@);
    let mut value: u64 = 0;
    let mut too_large = false;
    let mut i: usize = first;
    while i < len
        invariant
            len == text@.len(),
            first <= i <= len,
            digits == unsigned_digits(text@),
            digits == text@.skip(first as int),
            all_digits(digits.take(i - first)),
            !too_large ==> value == digits_value(digits.take(i - first)) && value <= max,
            too_large ==> digits_value(digits.take(i - first)) > max,
        decreases len - i,
    {
        let c = text.get_char(i);
        let ghost upto = digits.take(i - first + 1);
        assert(upto.drop_last() =~= digits.take(i - first));
        match value_of_digit(c) {
            Some(d) => {
                if !too_large {
                    value = value * 10 + d as u64;
                    if value > max as u64 {
                        too_large = true;
                    }
                }
            },
            None => {
                assert(digit_value(digits[i - first]).is_none());
                return None;
            },
        }
        i += 1;
    }
    assert(digits.take(len - first) =~= digits);
    if too_large {
        None
    } else {
        Some(value as u32)
    }
}

pub fn is_u16_literal(text: &str) -> (b: bool)
    ensures
        b == is_u16_text(text@),
{
    parse_number(text, 0xffff).is_some()
}

/// Reads `text` as a number that fits in thirty-two bits.
pub fn parse_u32(text: &str) -> (n: Option<u32>)
    ensures
        match n {
            Some(v) => number_reading(text@, u32::MAX as nat) == Some(v as nat),
            None => number_reading(text@, u32::MAX as nat).is_none(),
        },
{
    parse_number(text, u32::MAX)
}

/// What the text of a duration stands for, in whole minutes, given what the
/// parser made of it: a span of some whole minutes and nothing more, no
/// longer than a block can last.
pub open spec fn minutes_of(reading: Result<(u64, u32), Seq<char>>) -> Result<
    int,
    EditErrorView,
> {
    match reading {
        Err(msg) => Err(EditErrorView::InvalidDuration(msg)),
        Ok(span) => if span.0 == 0 || span.0 % 60 != 0 || span.1 != 0 {
            Err(EditErrorView::NotWholeMinutes)
        } else if span.0 as int / 60 > MAX_DURATION_MINS {
            Err(EditErrorView::OutsideDay)
        } else {
            Ok(span.0 as int / 60)
        },
    }
}

/// What the text of a duration stands for, in whole minutes. A text that
/// is not `within_reach` is refused like a span that is longer than a block
/// can last. Such a text stands for a longer span, if it stands for one at
/// all, unless it holds more than seven hundred million numbers.
pub open spec fn minutes_reading(text: Seq<char>) -> Result<
    int,
    EditErrorView,
> {
    if within_reach(text) {
        minutes_of(span_reading(text))
    } else {
        Err(EditErrorView::OutsideDay)
    }
}

/// Turns what the parser made of a duration's text into whole minutes.
pub fn whole_minutes(reading: Result<(u64, u32), String>) -> (r: Result<
    u32,
    EditError,
>)
    ensures
        minutes_outcome(r) == minutes_of(span_outcome(reading)),
{
    match reading {
        Err(msg) => Err(EditError::InvalidDuration(msg)),
        Ok(span) => {
            if span.0 == 0 || span.0 % 60 != 0 || span.1 != 0 {
                Err(EditError::NotWholeMinutes)
            } else if span.0 / 60 > 0x7fff_ffff {
                Err(EditError::OutsideDay)
            } else {
                Ok((span.0 / 60) as u32)
            }
        },
    }
}

/// Reads the text of a duration as whole minutes.
pub fn parse_minutes(text: &str) -> (r: Result<u32, EditError>)
    ensures
        minutes_outcome(r) == minutes_reading(text@),
{
    if !is_within_reach(text) {
        return Err(EditError::OutsideDay);
    }
    whole_minutes(read_span(text))
}

/// The format in which a time is typed: two digits for the hour, two for
/// the minute.
pub const TYPED_TIME_FORMAT: &'static str = "%H%M";

/// The time of day, in minutes since midnight, that a reading of hour and
/// minute stands for.
pub open spec fn time_of(reading: Result<(u32, u32), Seq<char>>) -> Result<
    int,
    EditErrorView,
> {
    match reading {
        Err(msg) => Err(EditErrorView::InvalidTime(msg)),
        Ok(hm) => Ok(hm.0 * 60 + hm.1),
    }
}

/// What a typed time stands for, in minutes since midnight.
pub open spec fn time_reading(text: Seq<char>) -> Result<
    int,
    EditErrorView,
> {
    time_of(clock_reading(text, TYPED_TIME_FORMAT@))
}

/// Turns what the parser made of a time's text into minutes since
/// midnight.
pub fn time_of_day(reading: Result<(u32, u32), String>) -> (r: Result<
    u32,
    EditError,
>)
    requires
        reading matches Ok(hm) ==> hm.0 < 24 && hm.1 < 60,
    ensures
        time_outcome(r) == time_of(clock_outcome(reading)),
        r matches Ok(t) ==> t < MINUTES_PER_DAY,
{
    match reading {
        Err(msg) => Err(EditError::InvalidTime(msg)),
        Ok(hm) => Ok(hm.0 * 60 + hm.1),
    }
}

/// Reads a typed time as minutes since midnight.
pub fn parse_typed_time(text: &str) -> (r: Result<u32, EditError>)
    ensures
        time_outcome(r) == time_reading(text@),
        r matches Ok(t) ==> t < MINUTES_PER_DAY,
{
    time_of_day(read_clock(text, TYPED_TIME_FORMAT))
}

/// Whether `c` is a letter in which units are written.
fn is_letter_of_units(c: char) -> (b: bool)
    ensures
        b == is_unit_letter(c),
{
    ('a' <= c && c <= 'z') || ('A' <= c && c <= 'Z') || c == '\u{b5}'
}

/// Whether the unit that starts at `at` can only be shorter than a second.
fn is_short_unit_at(text: &str, at: usize) -> (b: bool)
    requires
        at < text@.len(),
    ensures
        b == short_unit_at(text@, at as int),
{
    let len = text.unicode_len();
    let c = text.get_char(at);
    if c == 'n' || c == 'u' || c == '\u{b5}' {
        return true;
    }
    if c != 'm' || at + 1 >= len {
        return false;
    }
    let next = text.get_char(at + 1);
    next == 's' || (next == 'i' && at + 2 < len && text.get_char(at + 2) == 'l')
}

/// Whether the span that `text` stands for stays below the top of the
/// range of seconds, whatever its units are.
pub fn is_within_reach(text: &str) -> (b: bool)
    ensures
        b == within_reach(text@),
{
    let len = text.unicode_len();
    let mut total: u64 = 0;
    let mut number: u64 = 0;
    let mut beyond = false;
    let mut past_point = false;
    let mut after_letter = false;
    let ghost mut read: nat = 0;
    let mut i: usize = 0;
    while i < len
        invariant
            len == text@.len(),
            i <= len,
            total < u64::MAX,
            total + reach_from(text@, i as int, read, past_point) == reach_from(text@, 0, 0, false),
            after_letter == (i > 0 && is_unit_letter(text@[i - 1])),
            !beyond ==> number == read && number < NUMBER_LIMIT,
            beyond ==> read >= NUMBER_LIMIT,
        decreases len - i,
    {
        let c = text.get_char(i);
        if is_letter_of_units(c) {
            if !after_letter {
                let short = is_short_unit_at(text, i);
                if !short && beyond {
                    assert((read + 1) * LONGEST_UNIT_SECS >= u64::MAX) by (nonlinear_arith)
                        requires
                            read >= NUMBER_LIMIT,
                    ;
                    return false;
                }
                let most: u64 = if short {
                    SHORT_UNIT_SECS
                } else {
                    assert((number + 1) * LONGEST_UNIT_SECS <= u64::MAX) by (nonlinear_arith)
                        requires
                            number < NUMBER_LIMIT,
                    ;
                    (number + 1) * LONGEST_UNIT_SECS
                };
                if most >= u64::MAX - total {
                    return false;
                }
                total = total + most;
            }
            number = 0;
            beyond = false;
            past_point = false;
            after_letter = true;
            proof {
                read = 0;
            }
        } else {
            after_letter = false;
            if c == '.' {
                past_point = true;
            } else {
                match value_of_digit(c) {
                    Some(d) => {
                        if !past_point {
                            proof {
                                read = read * 10 + d as nat;
                            }
                            if !beyond {
                                number = number * 10 + d as u64;
                                if number >= NUMBER_LIMIT {
                                    beyond = true;
                                }
                            }
                        }
                    },
                    None => {},
                }
            }
        }
        i += 1;
    }
    true
}

/// A text holds neither a colon nor a sign.
pub open spec fn is_plain(text: Seq<char>) -> bool {
    forall|i: int| 0 <= i < text.len() ==> #[trigger] text[i] != ':' && text[i] != '+'
}

/// A number written in decimal is made of digits only, and these stand for
/// the number.
pub proof fn lemma_decimal_reads_back(n: nat)
    ensures
        decimal(n).len() >= 1,
        all_digits(decimal(n)),
        is_plain(decimal(n)),
        digits_value(decimal(n)) == n,
    decreases n,
{
    let d = digit_char((n % 10) as int);
    assert(digit_value(d) == Some((n % 10) as int));
    if n >= 10 {
        lemma_decimal_reads_back(n / 10);
        assert(decimal(n).drop_last() =~= decimal(n / 10));
    } else {
        assert(decimal(n).drop_last() =~= Seq::<char>::empty());
        assert(digits_value(Seq::<char>::empty()) == 0);
    }
}

/// The same for a number written with two digits or more, and so such a
/// text is read as the number it was written from.
pub proof fn lemma_decimal2_reads_back(n: nat, max: nat)
    requires
        n <= max,
    ensures
        decimal2(n).len() >= 2,
        all_digits(decimal2(n)),
        is_plain(decimal2(n)),
        digits_value(decimal2(n)) == n,
        number_reading(decimal2(n), max) == Some(n),
{
    if n < 10 {
        let text = decimal2(n);
        assert(digit_value(digit_char(n as int)) == Some(n as int));
        assert(text.drop_last() =~= seq!['0']);
        assert(seq!['0'].drop_last() =~= Seq::<char>::empty());
        assert(digits_value(Seq::<char>::empty()) == 0);
        assert(digits_value(seq!['0']) == 0);
    } else {
        lemma_decimal_reads_back(n);
        lemma_decimal_reads_back(n / 10);
        assert(decimal(n).len() == decimal(n / 10).len() + 1);
    }
    assert(decimal2(n)[0] != '+');
}

} // verus!
