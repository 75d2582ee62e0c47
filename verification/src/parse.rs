//! Parsing a date and time from text.
//!
//! The text is scanned against a pattern by the `strptime` crate, which
//! hands back the fields it read. The fields are checked and assembled into
//! a [`DateTime`] here. Without a pattern, a list of common patterns is
//! tried in order, and the first that the text matches decides.

use vstd::prelude::*;
use crate::arith::lemma_floor_division;
use crate::arith::lemma_floor_division_unique;
use crate::calendar::civil_day;
use crate::calendar::civil_month;
use crate::calendar::civil_year;
use crate::calendar::days_from_civil;
use crate::calendar::is_date;
use crate::calendar::lemma_counts_back;
use crate::calendar::lemma_year_fits;
use crate::calendar::valid_date;
use crate::instant::DateTime;
use crate::text::chars_of;
use crate::text::digits_end;
use crate::text::is_digit;
use crate::text::number;
use crate::text::read_number;
use crate::text::NUMBER_LIMIT;
use crate::zone::TimeZone;

verus! {

/// Why no date and time could be read from a text.
#[derive(Clone, Copy, Debug, PartialEq, Eq, Structural)]
pub enum ParseError {
    /// The text does not match the pattern, or none of the common patterns.
    Mismatch,
    /// The text matches, and holds no date.
    MissingDate,
    /// The calendar has no such day.
    InvalidDate,
    /// The hour, the minute, the second or the nanoseconds are out of range.
    InvalidTime,
}

/// A date as it was read, not yet checked.
#[derive(Clone, Copy, Debug, PartialEq, Eq, Structural)]
pub struct RawDate {
    pub year: i16,
    pub month: u8,
    pub day: u8,
}

/// A time of day as it was read, not yet checked. What the text did not hold
/// is zero.
#[derive(Clone, Copy, Debug, PartialEq, Eq, Structural)]
pub struct RawTime {
    pub hour: u8,
    pub minute: u8,
    pub second: u8,
    pub nanosecond: u64,
    /// The offset from UTC in seconds, if the text held one.
    pub utc_offset: Option<i32>,
}

/// What was read from a text: a date, a time of day, both or neither.
#[derive(Clone, Copy, Debug, PartialEq, Eq, Structural)]
pub struct RawDateTime {
    pub date: Option<RawDate>,
    pub time: Option<RawTime>,
}

/// What `strptime` reads from `text` by `pattern`; `None` where the text does
/// not match.
pub uninterp spec fn scanned(pattern: Seq<char>, text: Seq<char>) -> Option<RawDateTime>;

/// Whether the character, in a directive of a pattern, is a modifier of the
/// scanner and keeps the directive open.
pub open spec fn is_scan_modifier(c: char) -> bool {
    c == '-' || c == '0' || c == ' ' || c == '.' || c == '3' || c == '6' || c == '9'
}

/// Whether the character at position `j` of the pattern stands in a
/// directive: after a `%` that opens one, and after modifiers only.
pub open spec fn in_directive(pattern: Seq<char>, j: int) -> bool
    decreases j,
{
    if j <= 0 || j > pattern.len() {
        false
    } else if in_directive(pattern, j - 1) {
        is_scan_modifier(pattern[j - 1])
    } else {
        pattern[j - 1] == '%'
    }
}

/// Whether, among the first `n` characters of the pattern, the modifier `-`
/// stands in a directive. From there on the scanner reads a number to the
/// last digit of its run, however long the run is.
pub open spec fn suppressed(pattern: Seq<char>, n: int) -> bool
    decreases n,
{
    if n <= 0 || n > pattern.len() {
        false
    } else {
        suppressed(pattern, n - 1) || (in_directive(pattern, n - 1) && pattern[n - 1] == '-')
    }
}

/// Whether, among the first `n` characters of the pattern, the letter stands
/// as that of a directive.
pub open spec fn directs(pattern: Seq<char>, letter: char, n: int) -> bool
    decreases n,
{
    if n <= 0 || n > pattern.len() {
        false
    } else {
        directs(pattern, letter, n - 1) || (in_directive(pattern, n - 1) && pattern[n - 1]
            == letter)
    }
}

/// Whether, among the first `n` characters of the pattern, the letter stands
/// as that of a directive after a modifier `-`.
pub open spec fn directs_unbounded(pattern: Seq<char>, letter: char, n: int) -> bool
    decreases n,
{
    if n <= 0 || n > pattern.len() {
        false
    } else {
        directs_unbounded(pattern, letter, n - 1) || (in_directive(pattern, n - 1) && pattern[n
            - 1] == letter && suppressed(pattern, n - 1))
    }
}

/// Whether the value is at least `lo`, and at most `hi` where there is one.
pub open spec fn within(value: nat, lo: nat, hi: Option<u64>) -> bool {
    lo <= value && match hi {
        Some(hi) => value <= hi,
        None => true,
    }
}

/// Whether the text holds a number within the bounds: digits from any digit
/// of the text to the last of its run.
pub open spec fn holds_number(text: Seq<char>, lo: nat, hi: Option<u64>) -> bool {
    exists|i: int|
        0 <= i < text.len() && is_digit(#[trigger] text[i]) && within(
            number(text, i, digits_end(text, i)),
            lo,
            hi,
        )
}

/// Whether scanning the text by the pattern may overflow the arithmetic of
/// the scanner, which combines three pairs of numbers in the width of their
/// fields: the hour of a twelve-hour clock and the half of the day, in eight
/// bits; the century and the year of the century, in sixteen; and the year
/// of the century and the century it is taken to be in, in sixteen.
///
/// Without the modifier `-` each of these numbers has two digits at most and
/// nothing overflows. After it, the hour overflows from 244 on (and no number
/// above 255 is read as an hour); a century read after it overflows with a
/// year of the century where one of the two is 168 or more; and a year of
/// the century read after it overflows from 22868 on, whatever the century.
/// The text is taken to hold such a number wherever any of its digits, read
/// to the end of its run, begins one.
pub open spec fn overlong(pattern: Seq<char>, text: Seq<char>) -> bool {
    let n = pattern.len() as int;
    ||| (directs_unbounded(pattern, 'I', n) && (directs(pattern, 'p', n) || directs(
        pattern,
        'P',
        n,
    )) && holds_number(text, 244, Some(255u64)))
    ||| (directs_unbounded(pattern, 'C', n) && directs(pattern, 'y', n) && holds_number(
        text,
        168,
        None,
    ))
    ||| (directs_unbounded(pattern, 'y', n) && holds_number(text, 22_868, None))
}

/// What scanning gives: what `strptime` reads, and no match where the
/// numbers may be too long for it.
pub open spec fn scan_result(pattern: Seq<char>, text: Seq<char>) -> Option<RawDateTime> {
    if overlong(pattern, text) {
        None
    } else {
        scanned(pattern, text)
    }
}

/// Scans the text: `strptime::Parser::new` with the pattern, then `parse`
/// with the text, then the accessors of what it returns, field by field.
///
/// What the parser reads depends on the two strings alone; the contract
/// gives it the name `scanned` and claims nothing of what is read. The
/// parser adds the hour of a twelve-hour clock to the half of the day, the
/// century to the year of the century, and the year of the century to the
/// century it is taken to be in, each in the width of its field, and panics
/// where the sum overflows; the contract leaves out the inputs on which it
/// can, as `overlong` describes them.
#[verifier::external_body]
fn scan(pattern: &'static str, text: &str) -> (r: Option<RawDateTime>)
    requires
        !overlong(pattern@, text@),
    ensures
        r == scanned(pattern@, text@),
{
    let raw = strptime::Parser::new(pattern).parse(text).ok()?;
    let date = raw.date().ok().map(|d| RawDate { year: d.year(), month: d.month(), day: d.day() });
    let time = raw.time().ok().map(|t| RawTime {
        hour: t.hour(),
        minute: t.minute(),
        second: t.second(),
        nanosecond: t.nanosecond(),
        utc_offset: t.utc_offset(),
    });
    Some(RawDateTime { date, time })
}

/// Which directives a pattern holds, of those whose numbers the scanner
/// combines.
#[derive(Clone, Copy, Debug)]
pub struct Combined {
    /// The hour of a twelve-hour clock, after a modifier `-`.
    pub long_hour: bool,
    /// The half of the day.
    pub half: bool,
    /// The century, after a modifier `-`.
    pub long_century: bool,
    /// The year of the century.
    pub year: bool,
    /// The year of the century, after a modifier `-`.
    pub long_year: bool,
}

/// Which of the directives whose numbers the scanner combines the pattern
/// holds.
fn combined_in(pattern: &Vec<char>) -> (r: Combined)
    ensures
        r.long_hour == directs_unbounded(pattern@, 'I', pattern.len() as int),
        r.half == (directs(pattern@, 'p', pattern.len() as int) || directs(
            pattern@,
            'P',
            pattern.len() as int,
        )),
        r.long_century == directs_unbounded(pattern@, 'C', pattern.len() as int),
        r.year == directs(pattern@, 'y', pattern.len() as int),
        r.long_year == directs_unbounded(pattern@, 'y', pattern.len() as int),
{
    let mut r = Combined {
        long_hour: false,
        half: false,
        long_century: false,
        year: false,
        long_year: false,
    };
    let mut open: bool = false;
    let mut dash: bool = false;
    let mut i: usize = 0;
    while i < pattern.len()
        invariant
            i <= pattern.len(),
            open == in_directive(pattern@, i as int),
            dash == suppressed(pattern@, i as int),
            r.long_hour == directs_unbounded(pattern@, 'I', i as int),
            r.half == (directs(pattern@, 'p', i as int) || directs(pattern@, 'P', i as int)),
            r.long_century == directs_unbounded(pattern@, 'C', i as int),
            r.year == directs(pattern@, 'y', i as int),
            r.long_year == directs_unbounded(pattern@, 'y', i as int),
        decreases pattern.len() - i,
    {
        let c: char = pattern[i];
        if open {
            r = Combined {
                long_hour: r.long_hour || (c == 'I' && dash),
                half: r.half || c == 'p' || c == 'P',
                long_century: r.long_century || (c == 'C' && dash),
                year: r.year || c == 'y',
                long_year: r.long_year || (c == 'y' && dash),
            };
            dash = dash || c == '-';
            open = c == '-' || c == '0' || c == ' ' || c == '.' || c == '3' || c == '6' || c
                == '9';
        } else {
            open = c == '%';
        }
        i += 1;
    }
    r
}

/// Whether the text holds a number within the bounds.
fn has_number(text: &Vec<char>, lo: u64, hi: Option<u64>) -> (r: bool)
    requires
        lo <= NUMBER_LIMIT,
        hi matches Some(h) ==> h <= NUMBER_LIMIT,
    ensures
        r == holds_number(text@, lo as nat, hi),
{
    let mut i: usize = 0;
    while i < text.len()
        invariant
            i <= text.len(),
            lo <= NUMBER_LIMIT,
            hi matches Some(h) ==> h <= NUMBER_LIMIT,
            forall|k: int|
                0 <= k < i ==> !(is_digit(#[trigger] text[k]) && within(
                    number(text@, k, digits_end(text@, k)),
                    lo as nat,
                    hi,
                )),
        decreases text.len() - i,
    {
        let c: char = text[i];
        if '0' <= c && c <= '9' {
            let (value, _end) = read_number(text, i);
            let fits: bool = match hi {
                Some(h) => value <= h,
                None => true,
            };
            if lo <= value && fits {
                return true;
            }
        }
        i += 1;
    }
    false
}

/// Scans the text by the pattern.
pub fn scan_text(pattern: &'static str, text: &str) -> (r: Option<RawDateTime>)
    ensures
        r == scan_result(pattern@, text@),
{
    let p: Vec<char> = chars_of(pattern);
    let t: Vec<char> = chars_of(text);
    let combined = combined_in(&p);
    let hour: bool = combined.long_hour && combined.half && has_number(&t, 244, Some(255));
    let century: bool = combined.long_century && combined.year && has_number(&t, 168, None);
    let year: bool = combined.long_year && has_number(&t, 22_868, None);
    if hour || century || year {
        None
    } else {
        scan(pattern, text)
    }
}

/// The time of day that stands in for one that the text did not hold:
/// midnight, with no offset.
pub open spec fn midnight_time() -> RawTime {
    RawTime { hour: 0, minute: 0, second: 0, nanosecond: 0, utc_offset: None }
}

/// Whether the fields of the time of day are in range.
pub open spec fn is_time(time: RawTime) -> bool {
    time.hour < 24 && time.minute < 60 && time.second < 60 && time.nanosecond < 1_000_000_000
}

/// The zone of a value read with this offset.
pub open spec fn zone_of(utc_offset: Option<i32>) -> TimeZone {
    match utc_offset {
        Some(offset) => TimeZone::FixedOffset(offset),
        None => TimeZone::Unspecified,
    }
}

/// The seconds by which a clock at this offset is ahead of UTC.
pub open spec fn shift_of(utc_offset: Option<i32>) -> int {
    match utc_offset {
        Some(offset) => offset as int,
        None => 0,
    }
}

/// The nanoseconds from the epoch to the instant at which a clock at the
/// offset read shows the date and the time of day.
pub open spec fn instant_of(date: RawDate, time: RawTime) -> int {
    (days_from_civil(date.year as int, date.month as int, date.day as int) * 86_400 + time.hour
        * 3_600 + time.minute * 60 + time.second - shift_of(time.utc_offset)) * 1_000_000_000
        + time.nanosecond
}

/// The date and time that the fields make, or why they make none. A text
/// without a date makes none; a text without a time of day is taken at
/// midnight. An offset read from the text becomes the zone of the value,
/// which then shows the wall clock that the text showed.
pub open spec fn assembled(raw: RawDateTime) -> Result<DateTime, ParseError> {
    match raw.date {
        None => Err(ParseError::MissingDate),
        Some(date) => {
            let time = match raw.time {
                Some(time) => time,
                None => midnight_time(),
            };
            if !is_date(date.year as int, date.month as int, date.day as int) {
                Err(ParseError::InvalidDate)
            } else if !is_time(time) {
                Err(ParseError::InvalidTime)
            } else {
                Ok(DateTime::at(instant_of(date, time), zone_of(time.utc_offset)))
            }
        },
    }
}

/// The time of day of the fields: the one read, or midnight.
pub open spec fn time_of(raw: RawDateTime) -> RawTime {
    match raw.time {
        Some(time) => time,
        None => midnight_time(),
    }
}

/// Whether the value is the one that the date and the time of day make: it
/// names their instant in the zone of their offset, and shows their wall
/// clock. From 1 March of the first year of the calendar on, its date can be
/// read, and reads as the date.
pub open spec fn shows(dt: DateTime, date: RawDate, time: RawTime) -> bool {
    &&& dt.wf()
    &&& dt@ == instant_of(date, time)
    &&& dt.zone() == zone_of(time.utc_offset)
    &&& dt.offset() is Ok
    &&& dt.local_seconds() % 86_400 == time.hour * 3_600 + time.minute * 60 + time.second
    &&& dt@ % 1_000_000_000 == time.nanosecond
    &&& (date.year > i16::MIN || date.month >= 3 ==> {
        &&& dt.has_wall_clock()
        &&& civil_year(dt.local_day()) == date.year
        &&& civil_month(dt.local_day()) == date.month
        &&& civil_day(dt.local_day()) == date.day
    })
}

/// Whether the value is the one that the fields make.
pub open spec fn made_of(dt: DateTime, raw: RawDateTime) -> bool {
    raw.date matches Some(date) && shows(dt, date, time_of(raw))
}

/// The date and time read from the text by the pattern, or why none is read.
pub open spec fn parsed(text: Seq<char>, pattern: Seq<char>) -> Result<DateTime, ParseError> {
    match scan_result(pattern, text) {
        None => Err(ParseError::Mismatch),
        Some(raw) => assembled(raw),
    }
}

/// The common patterns, in the order in which they are tried.
pub open spec fn common_patterns() -> Seq<Seq<char>> {
    seq![
        "%Y-%m-%dT%H:%M:%S"@,
        "%Y-%m-%dT%H:%M:%S%z"@,
        "%Y-%m-%d %H:%M:%S"@,
        "%Y-%m-%d %H:%M:%S%z"@,
        "%Y-%m-%dT%H:%M:%S%.6f"@,
        "%Y-%m-%dT%H:%M:%S%.6f%z"@,
        "%Y-%m-%d %H:%M:%S%.6f"@,
        "%Y-%m-%d %H:%M:%S%.6f%z"@,
        "%Y-%m-%dT%H:%M:%S%.9f"@,
        "%Y-%m-%dT%H:%M:%S%.9f%z"@,
        "%Y-%m-%d %H:%M:%S%.9f"@,
        "%Y-%m-%d %H:%M:%S%.9f%z"@,
        "%Y-%m-%d %H:%M:%SZ"@,
        "%Y-%m-%dT%H:%M:%SZ"@,
    ]
}

/// What the first of the patterns from position `i` on that the text matches
/// reads from it; `None` where the text matches none of them.
pub open spec fn first_match(patterns: Seq<Seq<char>>, text: Seq<char>, i: int) -> Option<
    RawDateTime,
>
    decreases patterns.len() - i,
{
    if i < 0 || i >= patterns.len() {
        None
    } else if scan_result(patterns[i], text) is Some {
        scan_result(patterns[i], text)
    } else {
        first_match(patterns, text, i + 1)
    }
}

/// The date and time read from the text by the first common pattern that it
/// matches, or why none is read.
pub open spec fn parsed_freely(text: Seq<char>) -> Result<DateTime, ParseError> {
    match first_match(common_patterns(), text, 0) {
        None => Err(ParseError::Mismatch),
        Some(raw) => assembled(raw),
    }
}

/// The fields that the wall clock of a value shows, as fields read from a
/// text.
pub open spec fn shown_by(t: DateTime) -> RawDateTime {
    let w = t.wall_clock_spec();
    RawDateTime {
        date: Some(RawDate { year: w.year, month: w.month, day: w.day }),
        time: Some(
            RawTime {
                hour: w.hour,
                minute: w.minute,
                second: w.second,
                nanosecond: w.nanosecond as u64,
                utc_offset: w.offset,
            },
        ),
    }
}

/// What a value shows on its wall clock, assembled again, is that instant;
/// and it is that value, unless the zone of the value is a named one, in
/// whose place the assembled value has the offset.
pub proof fn lemma_shown_assembles_back(t: DateTime)
    requires
        t.wf(),
        t.has_wall_clock(),
    ensures
        assembled(shown_by(t)) is Ok,
        assembled(shown_by(t))->Ok_0@ == t@,
        !(t.zone() is Named) ==> assembled(shown_by(t)) == Ok::<DateTime, ParseError>(t),
{
    let w = t.wall_clock_spec();
    let raw = shown_by(t);
    let local = t.local_seconds();
    let day = t.local_day();
    lemma_counts_back(day);
    lemma_year_fits(day);
    lemma_floor_division(local, 86_400);
    lemma_floor_division(local % 86_400, 3_600);
    lemma_floor_division(local, 3_600);
    lemma_floor_division(local % 3_600, 60);
    lemma_floor_division(local, 60);
    lemma_floor_division(t@, 1_000_000_000);
    t.lemma_canonical();
    let of_day = local % 86_400;
    let hour = of_day / 3_600;
    let minute = local % 3_600 / 60;
    let second = local % 60;
    // The second of the minute and the minute of the hour are those of the
    // second of the day.
    lemma_floor_division_unique(local, 3_600, 24 * day + hour, of_day % 3_600);
    lemma_floor_division_unique(local, 60, 60 * (local / 3_600) + minute, local % 3_600 % 60);
    assert(of_day == hour * 3_600 + minute * 60 + second);
    let date = raw.date->Some_0;
    let time = raw.time->Some_0;
    assert(date.year == civil_year(day));
    assert(date.month == civil_month(day));
    assert(date.day == civil_day(day));
    assert(is_time(time));
    assert(shift_of(time.utc_offset) == t.offset()->Ok_0);
    assert(instant_of(date, time) == t@);
    DateTime::lemma_at(t@, zone_of(time.utc_offset));
}

/// Where scanning a text by a pattern gives the fields that a value shows,
/// parsing the text by the pattern gives the instant of the value, and the
/// value itself unless its zone is a named one.
pub proof fn lemma_parse_of_shown(t: DateTime, text: Seq<char>, pattern: Seq<char>)
    requires
        t.wf(),
        t.has_wall_clock(),
        scan_result(pattern, text) == Some(shown_by(t)),
    ensures
        parsed(text, pattern) is Ok,
        parsed(text, pattern)->Ok_0@ == t@,
        !(t.zone() is Named) ==> parsed(text, pattern) == Ok::<DateTime, ParseError>(t),
{
    lemma_shown_assembles_back(t);
}

/// The common pattern at position `i`.
fn common_pattern(i: usize) -> (r: &'static str)
    requires
        i < 14,
    ensures
        r@ == common_patterns()[i as int],
{
    match i {
        0 => "%Y-%m-%dT%H:%M:%S",
        1 => "%Y-%m-%dT%H:%M:%S%z",
        2 => "%Y-%m-%d %H:%M:%S",
        3 => "%Y-%m-%d %H:%M:%S%z",
        4 => "%Y-%m-%dT%H:%M:%S%.6f",
        5 => "%Y-%m-%dT%H:%M:%S%.6f%z",
        6 => "%Y-%m-%d %H:%M:%S%.6f",
        7 => "%Y-%m-%d %H:%M:%S%.6f%z",
        8 => "%Y-%m-%dT%H:%M:%S%.9f",
        9 => "%Y-%m-%dT%H:%M:%S%.9f%z",
        10 => "%Y-%m-%d %H:%M:%S%.9f",
        11 => "%Y-%m-%d %H:%M:%S%.9f%z",
        12 => "%Y-%m-%d %H:%M:%SZ",
        _ => "%Y-%m-%dT%H:%M:%SZ",
    }
}

impl DateTime {
    /// Assemble a date and time from the fields read from a text.
    pub fn try_from(value: RawDateTime) -> (r: Result<DateTime, ParseError>)
        ensures
            r == assembled(value),
            r matches Ok(dt) ==> made_of(dt, value),
    {
        let date: RawDate = match value.date {
            Some(date) => date,
            None => {
                return Err(ParseError::MissingDate);
            },
        };
        let time: RawTime = match value.time {
            Some(time) => time,
            None => RawTime { hour: 0, minute: 0, second: 0, nanosecond: 0, utc_offset: None },
        };
        if !valid_date(date.year, date.month, date.day) {
            return Err(ParseError::InvalidDate);
        }
        if time.hour >= 24 || time.minute >= 60 || time.second >= 60 || time.nanosecond
            >= 1_000_000_000 {
            return Err(ParseError::InvalidTime);
        }
        let builder = DateTime::ymd(date.year, date.month, date.day).hms(
            time.hour,
            time.minute,
            time.second,
        ).nanos(time.nanosecond as u32);
        let dt: DateTime = match time.utc_offset {
            Some(utc_offset) => builder.utc_offset(utc_offset).build(),
            None => builder.build(),
        };
        proof {
            dt.lemma_canonical();
            let day = days_from_civil(date.year as int, date.month as int, date.day as int);
            let of_day = time.hour * 3_600 + time.minute * 60 + time.second;
            lemma_floor_division_unique(dt.local_seconds(), 86_400, day, of_day);
            lemma_floor_division_unique(
                dt@,
                1_000_000_000,
                day * 86_400 + of_day - shift_of(time.utc_offset),
                time.nanosecond as int,
            );
        }
        Ok(dt)
    }

    /// Parse a date from a string, according to the provided format string.
    pub fn parse(datetime_str: &str, fmt: &'static str) -> (r: Result<DateTime, ParseError>)
        ensures
            r == parsed(datetime_str@, fmt@),
            r matches Ok(dt) ==> scan_result(fmt@, datetime_str@) matches Some(raw) && made_of(
                dt,
                raw,
            ),
    {
        match scan_text(fmt, datetime_str) {
            None => Err(ParseError::Mismatch),
            Some(raw) => DateTime::try_from(raw),
        }
    }

    /// Parse a date from a string in one of several common formats.
    ///
    /// The formats are tried in order, and the first that the string matches
    /// decides what is read, and whether it makes a date and time.
    pub fn from_str(s: &str) -> (r: Result<DateTime, ParseError>)
        ensures
            r == parsed_freely(s@),
            r matches Ok(dt) ==> first_match(common_patterns(), s@, 0) matches Some(raw)
                && made_of(dt, raw),
    {
        let mut i: usize = 0;
        while i < 14
            invariant
                i <= 14,
                common_patterns().len() == 14,
                first_match(common_patterns(), s@, 0) == first_match(
                    common_patterns(),
                    s@,
                    i as int,
                ),
            decreases 14 - i,
        {
            match scan_text(common_pattern(i), s) {
                Some(raw) => {
                    return DateTime::try_from(raw);
                },
                None => {},
            }
            i += 1;
        }
        Err(ParseError::Mismatch)
    }
}

impl core::str::FromStr for DateTime {
    type Err = ParseError;

    /// Parse a date from a string in one of several common formats: what
    /// `DateTime::from_str` reads, for `str::parse`.
    fn from_str(s: &str) -> (r: Result<DateTime, ParseError>)
        ensures
            r == parsed_freely(s@),
            r matches Ok(dt) ==> first_match(common_patterns(), s@, 0) matches Some(raw)
                && made_of(dt, raw),
    {
        DateTime::from_str(s)
    }
}

} // verus!
