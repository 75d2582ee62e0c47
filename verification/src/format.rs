//! Formatting a date and time by a `strftime`-like pattern.
//!
//! A pattern is read from left to right. A character other than `%` stands
//! for itself. A `%` opens a directive: any number of modifiers, then one
//! letter that says what is written. What is written is read off a
//! [`WallClock`], the fields that a clock and a calendar show at an instant.
//! A value far from the epoch, or in a zone without an offset, shows only
//! some of them; a pattern fails where it asks for one of the others, and
//! nowhere else.

use vstd::prelude::*;
use crate::arith::quotient_toward_zero;
use crate::calendar::civil_day;
use crate::calendar::civil_month;
use crate::calendar::civil_year;
use crate::calendar::days_from_civil;
use crate::calendar::has_ordinal;
use crate::calendar::in_calendar;
use crate::calendar::FIRST_DAY;
use crate::calendar::Weekday;
use crate::calendar::FIRST_ORDINAL_DAY;
use crate::calendar::LAST_DAY;
use crate::instant::precision_of;
use crate::instant::Date;
use crate::instant::DateTime;
use crate::instant::Precision;
use crate::text::chars_of;
use crate::text::padded;
use crate::text::push_padded;
use crate::text::push_str;
use crate::text::Padding;
use crate::zone::TimeZone;
use crate::zone::TzError;

verus! {

/// Why a date and time could not be formatted.
#[derive(Clone, Copy, Debug, PartialEq, Eq, Structural)]
pub enum FormatError {
    /// The pattern holds a directive letter that stands for nothing.
    UnknownDirective,
    /// The pattern puts `.`, `3`, `6` or `9` before a directive other than
    /// `f`, the fractional seconds.
    MisplacedModifier,
    /// The pattern asks for a field of the wall clock, and the time zone has
    /// no offset at the instant.
    TimeZone(TzError),
    /// The pattern asks for a field of the calendar, and the day that the
    /// wall clock shows is outside the calendar; or for the day of the year,
    /// and the day is in the first year of the calendar.
    OutOfCalendar,
}

/// The fields that a value does not show, each with the reason.
#[derive(Clone, Copy, Debug, PartialEq, Eq, Structural)]
pub struct Missing {
    /// Why there is no year, month, day and weekday, if there is none.
    pub date: Option<FormatError>,
    /// Why there is no day of the year, if there is none.
    pub day_of_year: Option<FormatError>,
    /// Why there is no hour, minute and second, if there is none.
    pub time: Option<FormatError>,
    /// Why the offset from UTC is not known, if it is not.
    pub offset: Option<FormatError>,
}

/// What a clock and a calendar show at an instant. A field that is missing
/// is zero, or Sunday.
#[derive(Clone, Copy, Debug)]
pub struct WallClock {
    /// Which of the fields are missing.
    pub missing: Missing,
    pub year: i16,
    /// The month, from 1 to 12.
    pub month: u8,
    pub day: u8,
    pub weekday: Weekday,
    pub day_of_year: u16,
    pub hour: u8,
    pub minute: u8,
    pub second: u8,
    pub nanosecond: u32,
    /// The seconds from the Unix epoch to the instant.
    pub timestamp: i64,
    /// The offset from UTC in seconds, where a time zone is attached.
    pub offset: Option<i32>,
}

/// The modifiers of a directive.
#[derive(Clone, Copy, Debug)]
pub struct Modifiers {
    /// How numbers are brought to their width.
    pub padding: Padding,
    /// Whether a decimal point is written before the fractional seconds.
    pub point: bool,
    /// The number of digits of the fractional seconds: 3, 6 or 9, or 0 where
    /// the pattern gives none.
    pub digits: u8,
}

/// Whether the character, after a `%`, is a modifier and no directive letter.
pub open spec fn is_modifier(c: char) -> bool {
    c == '0' || c == '-' || c == '_' || c == '.' || c == '3' || c == '6' || c == '9'
}

impl Modifiers {
    /// No modifier.
    pub open spec fn none() -> Modifiers {
        Modifiers { padding: Padding::Default, point: false, digits: 0 }
    }

    /// The modifiers with one more: a later modifier of the same kind
    /// replaces an earlier one.
    pub open spec fn with(self, c: char) -> Modifiers {
        if c == '0' {
            Modifiers { padding: Padding::Zero, ..self }
        } else if c == '-' {
            Modifiers { padding: Padding::Suppress, ..self }
        } else if c == '_' {
            Modifiers { padding: Padding::Space, ..self }
        } else if c == '.' {
            Modifiers { point: true, ..self }
        } else if c == '3' {
            Modifiers { digits: 3, ..self }
        } else if c == '6' {
            Modifiers { digits: 6, ..self }
        } else if c == '9' {
            Modifiers { digits: 9, ..self }
        } else {
            self
        }
    }

    /// Whether one of the modifiers is for fractional seconds only.
    pub open spec fn fractional(self) -> bool {
        self.point || self.digits != 0
    }
}

/// The first position at or after `i` that holds no modifier.
pub open spec fn skip_modifiers(pattern: Seq<char>, i: int) -> int
    decreases pattern.len() - i,
{
    if 0 <= i < pattern.len() && is_modifier(pattern[i]) {
        skip_modifiers(pattern, i + 1)
    } else {
        i
    }
}

/// The modifiers that the characters from `i` up to `j` spell.
pub open spec fn modifiers_of(pattern: Seq<char>, i: int, j: int) -> Modifiers
    decreases j - i,
{
    if j <= i {
        Modifiers::none()
    } else {
        modifiers_of(pattern, i, j - 1).with(pattern[j - 1])
    }
}

/// The English name of the month, for a month from 1 to 12.
pub open spec fn month_text(month: int) -> Seq<char> {
    if month == 1 {
        "January"@
    } else if month == 2 {
        "February"@
    } else if month == 3 {
        "March"@
    } else if month == 4 {
        "April"@
    } else if month == 5 {
        "May"@
    } else if month == 6 {
        "June"@
    } else if month == 7 {
        "July"@
    } else if month == 8 {
        "August"@
    } else if month == 9 {
        "September"@
    } else if month == 10 {
        "October"@
    } else if month == 11 {
        "November"@
    } else {
        "December"@
    }
}

/// The three-letter abbreviation of the month, for a month from 1 to 12.
pub open spec fn month_short(month: int) -> Seq<char> {
    if month == 1 {
        "Jan"@
    } else if month == 2 {
        "Feb"@
    } else if month == 3 {
        "Mar"@
    } else if month == 4 {
        "Apr"@
    } else if month == 5 {
        "May"@
    } else if month == 6 {
        "Jun"@
    } else if month == 7 {
        "Jul"@
    } else if month == 8 {
        "Aug"@
    } else if month == 9 {
        "Sep"@
    } else if month == 10 {
        "Oct"@
    } else if month == 11 {
        "Nov"@
    } else {
        "Dec"@
    }
}

/// The English name of the day of the week.
pub open spec fn weekday_text(weekday: Weekday) -> Seq<char> {
    match weekday {
        Weekday::Sunday => "Sunday"@,
        Weekday::Monday => "Monday"@,
        Weekday::Tuesday => "Tuesday"@,
        Weekday::Wednesday => "Wednesday"@,
        Weekday::Thursday => "Thursday"@,
        Weekday::Friday => "Friday"@,
        Weekday::Saturday => "Saturday"@,
    }
}

/// The three-letter abbreviation of the day of the week.
pub open spec fn weekday_short(weekday: Weekday) -> Seq<char> {
    match weekday {
        Weekday::Sunday => "Sun"@,
        Weekday::Monday => "Mon"@,
        Weekday::Tuesday => "Tue"@,
        Weekday::Wednesday => "Wed"@,
        Weekday::Thursday => "Thu"@,
        Weekday::Friday => "Fri"@,
        Weekday::Saturday => "Sat"@,
    }
}

/// The number of the day of the week from Monday, 1, to Sunday, 7.
pub open spec fn iso_weekday(weekday: Weekday) -> int {
    if weekday is Sunday {
        7
    } else {
        weekday.index()
    }
}

/// The hour on a twelve-hour clock.
pub open spec fn hour12(hour: int) -> int {
    if hour == 0 {
        12
    } else if hour <= 12 {
        hour
    } else {
        hour - 12
    }
}

/// The half of the day: `PM` from noon on.
pub open spec fn meridiem(hour: int, upper: bool) -> Seq<char> {
    if hour >= 12 {
        if upper {
            "PM"@
        } else {
            "pm"@
        }
    } else {
        if upper {
            "AM"@
        } else {
            "am"@
        }
    }
}

/// The offset from UTC as a sign, two digits of hours and two of minutes;
/// nothing where no time zone is attached.
pub open spec fn offset_text(offset: Option<i32>) -> Seq<char> {
    match offset {
        None => Seq::empty(),
        Some(seconds) => {
            let size = if seconds < 0 {
                -seconds
            } else {
                seconds as int
            };
            seq![if seconds < 0 {
                '-'
            } else {
                '+'
            }] + padded(size / 3_600, 2, Padding::Zero) + padded(
                size % 3_600 / 60,
                2,
                Padding::Zero,
            )
        },
    }
}

/// The fractional seconds: a decimal point where one is asked for, then the
/// nanoseconds cut to the digits asked for, nine where none are.
pub open spec fn fraction_text(nanosecond: int, modifiers: Modifiers) -> Seq<char> {
    (if modifiers.point {
        seq!['.']
    } else {
        Seq::empty()
    }) + (if modifiers.digits == 3 {
        padded(nanosecond / 1_000_000, 3, Padding::Zero)
    } else if modifiers.digits == 6 {
        padded(nanosecond / 1_000, 6, Padding::Zero)
    } else {
        padded(nanosecond, 9, Padding::Zero)
    })
}

/// The year without its centuries; it has the sign of the year.
pub open spec fn year_of_century(year: int) -> int {
    year - quotient_toward_zero(year, 100) * 100
}

/// Two digits of the number, by zeros.
pub open spec fn two(v: int) -> Seq<char> {
    padded(v, 2, Padding::Zero)
}

/// What a directive that writes a number writes, if the letter is of that
/// kind.
pub open spec fn number_piece(w: WallClock, m: Modifiers, letter: char) -> Option<Seq<char>> {
    if letter == 'Y' {
        Some(padded(w.year as int, 4, m.padding))
    } else if letter == 'C' {
        Some(padded(quotient_toward_zero(w.year as int, 100), 2, m.padding))
    } else if letter == 'y' {
        Some(padded(year_of_century(w.year as int), 2, m.padding))
    } else if letter == 'm' {
        Some(padded(w.month as int, 2, m.padding))
    } else if letter == 'd' {
        Some(padded(w.day as int, 2, m.padding))
    } else if letter == 'j' {
        Some(padded(w.day_of_year as int, 3, m.padding))
    } else if letter == 'H' {
        Some(padded(w.hour as int, 2, m.padding))
    } else if letter == 'I' {
        Some(padded(hour12(w.hour as int), 2, m.padding))
    } else if letter == 'M' {
        Some(padded(w.minute as int, 2, m.padding))
    } else if letter == 'S' {
        Some(padded(w.second as int, 2, m.padding))
    } else if letter == 'w' {
        Some(padded(w.weekday.index(), 0, Padding::Suppress))
    } else if letter == 'u' {
        Some(padded(iso_weekday(w.weekday), 0, Padding::Suppress))
    } else if letter == 's' {
        Some(padded(w.timestamp as int, 0, Padding::Suppress))
    } else if letter == 'f' {
        Some(fraction_text(w.nanosecond as int, m))
    } else {
        None
    }
}

/// What a directive that writes a name or a fixed text writes, if the letter
/// is of that kind.
pub open spec fn text_piece(w: WallClock, letter: char) -> Option<Seq<char>> {
    if letter == 'b' || letter == 'h' {
        Some(month_short(w.month as int))
    } else if letter == 'B' {
        Some(month_text(w.month as int))
    } else if letter == 'a' {
        Some(weekday_short(w.weekday))
    } else if letter == 'A' {
        Some(weekday_text(w.weekday))
    } else if letter == 'z' {
        Some(offset_text(w.offset))
    } else if letter == 'P' {
        Some(meridiem(w.hour as int, true))
    } else if letter == 'p' {
        Some(meridiem(w.hour as int, false))
    } else if letter == 't' {
        Some(seq!['\t'])
    } else if letter == 'n' {
        Some(seq!['\n'])
    } else if letter == '%' {
        Some(seq!['%'])
    } else {
        None
    }
}

/// What a directive that stands for several others writes, if the letter is
/// of that kind.
pub open spec fn compound_piece(w: WallClock, letter: char) -> Option<Seq<char>> {
    if letter == 'D' {
        Some(
            two(w.month as int) + seq!['/'] + two(w.day as int) + seq!['/'] + two(
                year_of_century(w.year as int),
            ),
        )
    } else if letter == 'F' {
        Some(
            padded(w.year as int, 4, Padding::Zero) + seq!['-'] + two(w.month as int) + seq!['-']
                + two(w.day as int),
        )
    } else if letter == 'v' {
        Some(
            two(w.day as int) + seq!['-'] + month_short(w.month as int) + seq!['-'] + padded(
                w.year as int,
                4,
                Padding::Zero,
            ),
        )
    } else if letter == 'R' {
        Some(two(w.hour as int) + seq![':'] + two(w.minute as int))
    } else if letter == 'T' {
        Some(
            two(w.hour as int) + seq![':'] + two(w.minute as int) + seq![':'] + two(
                w.second as int,
            ),
        )
    } else {
        None
    }
}

/// Whether the directive reads the year, the month, the day or the weekday.
pub open spec fn reads_date(letter: char) -> bool {
    letter == 'Y' || letter == 'C' || letter == 'y' || letter == 'm' || letter == 'd' || letter
        == 'w' || letter == 'u' || letter == 'b' || letter == 'h' || letter == 'B' || letter == 'a'
        || letter == 'A' || letter == 'D' || letter == 'F' || letter == 'v'
}

/// Whether the directive reads the hour, the minute or the second.
pub open spec fn reads_time(letter: char) -> bool {
    letter == 'H' || letter == 'I' || letter == 'M' || letter == 'S' || letter == 'P' || letter
        == 'p' || letter == 'R' || letter == 'T'
}

/// Why the field that the directive reads is missing, if it reads one and
/// that one is missing.
pub open spec fn lack(w: WallClock, letter: char) -> Option<FormatError> {
    if reads_date(letter) {
        w.missing.date
    } else if letter == 'j' {
        w.missing.day_of_year
    } else if reads_time(letter) {
        w.missing.time
    } else if letter == 'z' {
        w.missing.offset
    } else {
        None
    }
}

/// What the directive with these modifiers and this letter writes. It fails
/// where a modifier of fractional seconds stands before another letter,
/// where the letter reads a field that is missing, and where the letter
/// stands for nothing.
pub open spec fn expand(w: WallClock, m: Modifiers, letter: char) -> Result<
    Seq<char>,
    FormatError,
> {
    if letter != 'f' && m.fractional() {
        Err(FormatError::MisplacedModifier)
    } else if lack(w, letter) is Some {
        Err(lack(w, letter)->Some_0)
    } else if number_piece(w, m, letter) is Some {
        Ok(number_piece(w, m, letter)->Some_0)
    } else if text_piece(w, letter) is Some {
        Ok(text_piece(w, letter)->Some_0)
    } else if compound_piece(w, letter) is Some {
        Ok(compound_piece(w, letter)->Some_0)
    } else {
        Err(FormatError::UnknownDirective)
    }
}

/// The text put before what follows it, where what follows is no error.
pub open spec fn prepend(head: Seq<char>, tail: Result<Seq<char>, FormatError>) -> Result<
    Seq<char>,
    FormatError,
> {
    match tail {
        Ok(text) => Ok(head + text),
        Err(e) => Err(e),
    }
}

/// What the pattern writes from position `i` on. A directive that the end of
/// the pattern cuts short writes nothing. The first directive in error
/// decides the error.
pub open spec fn render_from(w: WallClock, pattern: Seq<char>, i: int) -> Result<
    Seq<char>,
    FormatError,
>
    decreases pattern.len() - i,
{
    if i < 0 || i >= pattern.len() {
        Ok(Seq::empty())
    } else if pattern[i] != '%' {
        prepend(seq![pattern[i]], render_from(w, pattern, i + 1))
    } else {
        let j = skip_modifiers(pattern, i + 1);
        if j >= pattern.len() {
            Ok(Seq::empty())
        } else {
            proof {
                lemma_skip_modifiers(pattern, i + 1);
            }
            match expand(w, modifiers_of(pattern, i + 1, j), pattern[j]) {
                Err(e) => Err(e),
                Ok(piece) => prepend(piece, render_from(w, pattern, j + 1)),
            }
        }
    }
}

/// What the pattern writes.
pub open spec fn render(w: WallClock, pattern: Seq<char>) -> Result<Seq<char>, FormatError> {
    render_from(w, pattern, 0)
}

/// Putting two texts before a third, one after the other, puts their
/// concatenation before it.
pub proof fn lemma_prepend_twice(a: Seq<char>, b: Seq<char>, tail: Result<Seq<char>, FormatError>)
    ensures
        prepend(a, prepend(b, tail)) == prepend(a + b, tail),
{
    match tail {
        Ok(text) => {
            assert(a + (b + text) =~= (a + b) + text);
        },
        Err(_) => {},
    }
}

/// A pattern without `%` is written as it stands, whatever the fields are
/// and whichever of them are missing.
pub proof fn lemma_literal_pattern(w: WallClock, pattern: Seq<char>)
    requires
        !pattern.contains('%'),
    ensures
        render(w, pattern) == Ok::<Seq<char>, FormatError>(pattern),
{
    lemma_literal_tail(w, pattern, 0);
    assert(pattern.subrange(0, pattern.len() as int) =~= pattern);
}

/// From any position on, a pattern without `%` writes its own characters.
proof fn lemma_literal_tail(w: WallClock, pattern: Seq<char>, i: int)
    requires
        !pattern.contains('%'),
        0 <= i <= pattern.len(),
    ensures
        render_from(w, pattern, i) == Ok::<Seq<char>, FormatError>(
            pattern.subrange(i, pattern.len() as int),
        ),
    decreases pattern.len() - i,
{
    if i < pattern.len() {
        lemma_literal_tail(w, pattern, i + 1);
        assert(pattern.contains(pattern[i]));
        assert(seq![pattern[i]] + pattern.subrange(i + 1, pattern.len() as int)
            =~= pattern.subrange(i, pattern.len() as int));
    } else {
        assert(pattern.subrange(i, pattern.len() as int) =~= Seq::<char>::empty());
    }
}

/// `skip_modifiers` does not go back, stays within the pattern, and skips
/// modifiers only.
pub proof fn lemma_skip_modifiers(pattern: Seq<char>, i: int)
    requires
        0 <= i <= pattern.len(),
    ensures
        i <= skip_modifiers(pattern, i) <= pattern.len(),
        skip_modifiers(pattern, i) < pattern.len() ==> !is_modifier(
            pattern[skip_modifiers(pattern, i)],
        ),
    decreases pattern.len() - i,
{
    if i < pattern.len() && is_modifier(pattern[i]) {
        lemma_skip_modifiers(pattern, i + 1);
    }
}

/// Whether the character, after a `%`, is a modifier and no directive letter.
pub fn modifier(c: char) -> (r: bool)
    ensures
        r == is_modifier(c),
{
    c == '0' || c == '-' || c == '_' || c == '.' || c == '3' || c == '6' || c == '9'
}

/// The English name of the month.
pub fn month_name(month: u8) -> (r: &'static str)
    requires
        1 <= month <= 12,
    ensures
        r@ == month_text(month as int),
{
    match month {
        1 => "January",
        2 => "February",
        3 => "March",
        4 => "April",
        5 => "May",
        6 => "June",
        7 => "July",
        8 => "August",
        9 => "September",
        10 => "October",
        11 => "November",
        12 => "December",
        _ => vstd::pervasive::unreached(),
    }
}

/// The three-letter abbreviation of the month.
pub fn month_abbv(month: u8) -> (r: &'static str)
    requires
        1 <= month <= 12,
    ensures
        r@ == month_short(month as int),
{
    match month {
        1 => "Jan",
        2 => "Feb",
        3 => "Mar",
        4 => "Apr",
        5 => "May",
        6 => "Jun",
        7 => "Jul",
        8 => "Aug",
        9 => "Sep",
        10 => "Oct",
        11 => "Nov",
        12 => "Dec",
        _ => vstd::pervasive::unreached(),
    }
}

/// The English name of the day of the week.
pub fn weekday_name(weekday: Weekday) -> (r: &'static str)
    ensures
        r@ == weekday_text(weekday),
{
    match weekday {
        Weekday::Sunday => "Sunday",
        Weekday::Monday => "Monday",
        Weekday::Tuesday => "Tuesday",
        Weekday::Wednesday => "Wednesday",
        Weekday::Thursday => "Thursday",
        Weekday::Friday => "Friday",
        Weekday::Saturday => "Saturday",
    }
}

/// The three-letter abbreviation of the day of the week.
pub fn weekday_abbv(weekday: Weekday) -> (r: &'static str)
    ensures
        r@ == weekday_short(weekday),
{
    match weekday {
        Weekday::Sunday => "Sun",
        Weekday::Monday => "Mon",
        Weekday::Tuesday => "Tue",
        Weekday::Wednesday => "Wed",
        Weekday::Thursday => "Thu",
        Weekday::Friday => "Fri",
        Weekday::Saturday => "Sat",
    }
}

impl Modifiers {
    /// The modifiers with one more.
    pub fn add_modifier(self, c: char) -> (r: Modifiers)
        ensures
            r == self.with(c),
    {
        if c == '0' {
            Modifiers { padding: Padding::Zero, point: self.point, digits: self.digits }
        } else if c == '-' {
            Modifiers { padding: Padding::Suppress, point: self.point, digits: self.digits }
        } else if c == '_' {
            Modifiers { padding: Padding::Space, point: self.point, digits: self.digits }
        } else if c == '.' {
            Modifiers { padding: self.padding, point: true, digits: self.digits }
        } else if c == '3' {
            Modifiers { padding: self.padding, point: self.point, digits: 3 }
        } else if c == '6' {
            Modifiers { padding: self.padding, point: self.point, digits: 6 }
        } else if c == '9' {
            Modifiers { padding: self.padding, point: self.point, digits: 9 }
        } else {
            self
        }
    }
}

impl WallClock {
    /// The month, unless it is missing, is one of the twelve.
    pub open spec fn wf(self) -> bool {
        self.missing.date is None ==> 1 <= self.month <= 12
    }

    /// Why the field that the directive reads is missing, if it reads one
    /// and that one is missing.
    fn lack_of(&self, letter: char) -> (r: Option<FormatError>)
        ensures
            r == lack(*self, letter),
    {
        if letter == 'Y' || letter == 'C' || letter == 'y' || letter == 'm' || letter == 'd'
            || letter == 'w' || letter == 'u' || letter == 'b' || letter == 'h' || letter == 'B'
            || letter == 'a' || letter == 'A' || letter == 'D' || letter == 'F' || letter == 'v' {
            self.missing.date
        } else if letter == 'j' {
            self.missing.day_of_year
        } else if letter == 'H' || letter == 'I' || letter == 'M' || letter == 'S' || letter == 'P'
            || letter == 'p' || letter == 'R' || letter == 'T' {
            self.missing.time
        } else if letter == 'z' {
            self.missing.offset
        } else {
            None
        }
    }

    /// Appends what a directive that writes a number writes, and says
    /// whether the letter is of that kind.
    fn emit_number(&self, m: Modifiers, letter: char, out: &mut String) -> (r: bool)
        ensures
            r == number_piece(*self, m, letter) is Some,
            r ==> final(out)@ == old(out)@ + number_piece(*self, m, letter)->Some_0,
            !r ==> final(out)@ == old(out)@,
    {
        let year: i64 = self.year as i64;
        let century: i64 = year / 100;
        if letter == 'Y' {
            push_padded(out, year, 4, m.padding);
        } else if letter == 'C' {
            push_padded(out, century, 2, m.padding);
        } else if letter == 'y' {
            push_padded(out, year - century * 100, 2, m.padding);
        } else if letter == 'm' {
            push_padded(out, self.month as i64, 2, m.padding);
        } else if letter == 'd' {
            push_padded(out, self.day as i64, 2, m.padding);
        } else if letter == 'j' {
            push_padded(out, self.day_of_year as i64, 3, m.padding);
        } else if letter == 'H' {
            push_padded(out, self.hour as i64, 2, m.padding);
        } else if letter == 'I' {
            let hour: u8 = if self.hour == 0 {
                12
            } else if self.hour <= 12 {
                self.hour
            } else {
                self.hour - 12
            };
            push_padded(out, hour as i64, 2, m.padding);
        } else if letter == 'M' {
            push_padded(out, self.minute as i64, 2, m.padding);
        } else if letter == 'S' {
            push_padded(out, self.second as i64, 2, m.padding);
        } else if letter == 'w' {
            push_padded(out, self.weekday.number() as i64, 0, Padding::Suppress);
        } else if letter == 'u' {
            let number: u8 = match self.weekday {
                Weekday::Sunday => 7,
                _ => self.weekday.number(),
            };
            push_padded(out, number as i64, 0, Padding::Suppress);
        } else if letter == 's' {
            push_padded(out, self.timestamp, 0, Padding::Suppress);
        } else if letter == 'f' {
            if m.point {
                out.push('.');
            }
            if m.digits == 3 {
                push_padded(out, (self.nanosecond / 1_000_000) as i64, 3, Padding::Zero);
            } else if m.digits == 6 {
                push_padded(out, (self.nanosecond / 1_000) as i64, 6, Padding::Zero);
            } else {
                push_padded(out, self.nanosecond as i64, 9, Padding::Zero);
            }
            assert(out@ =~= old(out)@ + fraction_text(self.nanosecond as int, m));
        } else {
            return false;
        }
        true
    }

    /// Appends what a directive that writes a name or a fixed text writes,
    /// and says whether the letter is of that kind.
    fn emit_text(&self, letter: char, out: &mut String) -> (r: bool)
        requires
            letter == 'b' || letter == 'h' || letter == 'B' ==> 1 <= self.month <= 12,
        ensures
            r == text_piece(*self, letter) is Some,
            r ==> final(out)@ == old(out)@ + text_piece(*self, letter)->Some_0,
            !r ==> final(out)@ == old(out)@,
    {
        if letter == 'b' || letter == 'h' {
            push_str(out, month_abbv(self.month));
        } else if letter == 'B' {
            push_str(out, month_name(self.month));
        } else if letter == 'a' {
            push_str(out, weekday_abbv(self.weekday));
        } else if letter == 'A' {
            push_str(out, weekday_name(self.weekday));
        } else if letter == 'z' {
            match self.offset {
                None => {
                },
                Some(seconds) => {
                    let size: i64 = if seconds < 0 {
                        -(seconds as i64)
                    } else {
                        seconds as i64
                    };
                    let sign: char = if seconds < 0 {
                        '-'
                    } else {
                        '+'
                    };
                    out.push(sign);
                    push_padded(out, size / 3_600, 2, Padding::Zero);
                    push_padded(out, size % 3_600 / 60, 2, Padding::Zero);
                    assert(out@ =~= old(out)@ + offset_text(self.offset));
                },
            }
        } else if letter == 'P' {
            let half: &str = if self.hour >= 12 {
                "PM"
            } else {
                "AM"
            };
            push_str(out, half);
        } else if letter == 'p' {
            let half: &str = if self.hour >= 12 {
                "pm"
            } else {
                "am"
            };
            push_str(out, half);
        } else if letter == 't' {
            out.push('\t');
        } else if letter == 'n' {
            out.push('\n');
        } else if letter == '%' {
            out.push('%');
        } else {
            return false;
        }
        true
    }

    /// Appends what a directive that stands for several others writes, and
    /// says whether the letter is of that kind.
    fn emit_compound(&self, letter: char, out: &mut String) -> (r: bool)
        requires
            letter == 'v' ==> 1 <= self.month <= 12,
        ensures
            r == compound_piece(*self, letter) is Some,
            r ==> final(out)@ == old(out)@ + compound_piece(*self, letter)->Some_0,
            !r ==> final(out)@ == old(out)@,
    {
        let zero = Padding::Zero;
        let year: i64 = self.year as i64;
        if letter == 'D' {
            push_padded(out, self.month as i64, 2, zero);
            out.push('/');
            push_padded(out, self.day as i64, 2, zero);
            out.push('/');
            push_padded(out, year - year / 100 * 100, 2, zero);
        } else if letter == 'F' {
            push_padded(out, year, 4, zero);
            out.push('-');
            push_padded(out, self.month as i64, 2, zero);
            out.push('-');
            push_padded(out, self.day as i64, 2, zero);
        } else if letter == 'v' {
            push_padded(out, self.day as i64, 2, zero);
            out.push('-');
            push_str(out, month_abbv(self.month));
            out.push('-');
            push_padded(out, year, 4, zero);
        } else if letter == 'R' {
            push_padded(out, self.hour as i64, 2, zero);
            out.push(':');
            push_padded(out, self.minute as i64, 2, zero);
        } else if letter == 'T' {
            push_padded(out, self.hour as i64, 2, zero);
            out.push(':');
            push_padded(out, self.minute as i64, 2, zero);
            out.push(':');
            push_padded(out, self.second as i64, 2, zero);
        } else {
            return false;
        }
        assert(out@ =~= old(out)@ + compound_piece(*self, letter)->Some_0);
        true
    }

    /// Appends what the directive with these modifiers and this letter
    /// writes.
    fn emit(&self, m: Modifiers, letter: char, out: &mut String) -> (r: Result<(), FormatError>)
        requires
            self.wf(),
        ensures
            match expand(*self, m, letter) {
                Ok(piece) => r is Ok && final(out)@ == old(out)@ + piece,
                Err(e) => r == Err::<(), FormatError>(e),
            },
    {
        if letter != 'f' && (m.point || m.digits != 0) {
            return Err(FormatError::MisplacedModifier);
        }
        match self.lack_of(letter) {
            Some(e) => {
                return Err(e);
            },
            None => {},
        }
        if self.emit_number(m, letter, out) {
            Ok(())
        } else if self.emit_text(letter, out) {
            Ok(())
        } else if self.emit_compound(letter, out) {
            Ok(())
        } else {
            Err(FormatError::UnknownDirective)
        }
    }

    /// Format these fields according to the provided `strftime`-like string.
    pub fn format(&self, pattern: &str) -> (r: Result<String, FormatError>)
        requires
            self.wf(),
        ensures
            r matches Ok(text) ==> render(*self, pattern@) == Ok::<Seq<char>, FormatError>(text@),
            r matches Err(e) ==> render(*self, pattern@) == Err::<Seq<char>, FormatError>(e),
    {
        let p: Vec<char> = chars_of(pattern);
        let mut out: String = String::new();
        let mut i: usize = 0;
        while i < p.len()
            invariant
                self.wf(),
                i <= p.len(),
                p@ == pattern@,
                render(*self, p@) == prepend(out@, render_from(*self, p@, i as int)),
            decreases p.len() - i,
        {
            let c: char = p[i];
            if c != '%' {
                proof {
                    lemma_prepend_twice(out@, seq![c], render_from(*self, p@, i + 1));
                    assert(out@.push(c) =~= out@ + seq![c]);
                }
                out.push(c);
                i += 1;
            } else {
                let mut j: usize = i + 1;
                let mut m: Modifiers = Modifiers {
                    padding: Padding::Default,
                    point: false,
                    digits: 0,
                };
                while j < p.len() && modifier(p[j])
                    invariant
                        i < j <= p.len(),
                        skip_modifiers(p@, i + 1) == skip_modifiers(p@, j as int),
                        m == modifiers_of(p@, i + 1, j as int),
                    decreases p.len() - j,
                {
                    m = m.add_modifier(p[j]);
                    j += 1;
                }
                if j >= p.len() {
                    i = j;
                } else {
                    let ghost before = out@;
                    match self.emit(m, p[j], &mut out) {
                        Err(e) => {
                            return Err(e);
                        },
                        Ok(()) => {},
                    }
                    proof {
                        lemma_prepend_twice(
                            before,
                            expand(*self, m, p@[j as int])->Ok_0,
                            render_from(*self, p@, j + 1),
                        );
                    }
                    i = j + 1;
                }
            }
        }
        Ok(out)
    }
}

/// The pattern of the debugging form of a value that needs this precision.
pub open spec fn debug_pattern(precision: Precision) -> Seq<char> {
    match precision {
        Precision::Second => "%Y-%m-%d %H:%M:%S"@,
        Precision::Millisecond => "%Y-%m-%d %H:%M:%S%.3f"@,
        Precision::Microsecond => "%Y-%m-%d %H:%M:%S%.6f"@,
        Precision::Nanosecond => "%Y-%m-%d %H:%M:%S%.9f"@,
    }
}

/// The pattern of the serialized form of a value that needs this precision:
/// whole seconds, six digits of a second, or nine.
pub open spec fn serial_pattern(precision: Precision) -> Seq<char> {
    match precision {
        Precision::Second => "%Y-%m-%dT%H:%M:%S%z"@,
        Precision::Millisecond => "%Y-%m-%dT%H:%M:%S%.6f%z"@,
        Precision::Microsecond => "%Y-%m-%dT%H:%M:%S%.6f%z"@,
        Precision::Nanosecond => "%Y-%m-%dT%H:%M:%S%.9f%z"@,
    }
}

/// A date with a requested format.
#[derive(Clone, Copy)]
pub struct FormattedDateTime<'a> {
    dt: DateTime,
    format: &'a str,
}

impl<'a> FormattedDateTime<'a> {
    /// The date and time that is to be formatted.
    pub closed spec fn subject(self) -> DateTime {
        self.dt
    }

    /// The pattern by which it is to be formatted.
    pub closed spec fn pattern(self) -> Seq<char> {
        self.format@
    }

    /// The text that formatting gives, or why it gives none.
    pub open spec fn text(self) -> Result<Seq<char>, FormatError> {
        self.subject().formatted(self.pattern())
    }

    /// The formatted text.
    pub fn to_string(&self) -> (r: Result<String, FormatError>)
        ensures
            r matches Ok(text) ==> self.text() == Ok::<Seq<char>, FormatError>(text@),
            r matches Err(e) ==> self.text() == Err::<Seq<char>, FormatError>(e),
    {
        self.dt.wall_clock().format(self.format)
    }

    /// Whether formatting gives exactly the text `other`.
    pub fn eq(&self, other: &str) -> (r: bool)
        ensures
            r == (self.text() == Ok::<Seq<char>, FormatError>(other@)),
    {
        match self.to_string() {
            Err(_) => false,
            Ok(text) => {
                let theirs: String = other.to_owned();
                text == theirs
            },
        }
    }
}

impl DateTime {
    /// The fields that the value does not show. Without an offset of its
    /// zone it shows none of the wall clock. Outside the calendar it shows
    /// no date, and in the first year of the calendar no day of the year.
    pub open spec fn missing(self) -> Missing {
        match self.offset() {
            Err(e) => Missing {
                date: Some(FormatError::TimeZone(e)),
                day_of_year: Some(FormatError::TimeZone(e)),
                time: Some(FormatError::TimeZone(e)),
                offset: Some(FormatError::TimeZone(e)),
            },
            Ok(_) => Missing {
                date: if in_calendar(self.local_seconds()) {
                    None
                } else {
                    Some(FormatError::OutOfCalendar)
                },
                day_of_year: if has_ordinal(self.local_seconds()) {
                    None
                } else {
                    Some(FormatError::OutOfCalendar)
                },
                time: None,
                offset: None,
            },
        }
    }

    /// What a clock and a calendar in the value's zone show at its instant.
    pub open spec fn wall_clock_spec(self) -> WallClock {
        let missing = self.missing();
        let day = self.local_day();
        WallClock {
            missing,
            year: if missing.date is None {
                civil_year(day) as i16
            } else {
                0
            },
            month: if missing.date is None {
                civil_month(day) as u8
            } else {
                0
            },
            day: if missing.date is None {
                civil_day(day) as u8
            } else {
                0
            },
            weekday: if missing.date is None {
                Weekday::of_index((day + 4) % 7)
            } else {
                Weekday::Sunday
            },
            day_of_year: if missing.day_of_year is None {
                (day - days_from_civil(civil_year(day) - 1, 12, 31)) as u16
            } else {
                0
            },
            hour: if missing.time is None {
                (self.local_seconds() % 86_400 / 3_600) as u8
            } else {
                0
            },
            minute: if missing.time is None {
                (self.local_seconds() % 3_600 / 60) as u8
            } else {
                0
            },
            second: if missing.time is None {
                (self.local_seconds() % 60) as u8
            } else {
                0
            },
            nanosecond: (self@ % 1_000_000_000) as u32,
            timestamp: self.epoch_seconds() as i64,
            offset: match self.offset() {
                Ok(offset) => if self.zone().is_specified() {
                    Some(offset)
                } else {
                    None
                },
                Err(_) => None,
            },
        }
    }

    /// The text that formatting by the pattern gives, or why it gives none.
    /// A pattern fails only where it asks for what the value does not show:
    /// a pattern without directives is written as it stands, for any value.
    pub open spec fn formatted(self, pattern: Seq<char>) -> Result<Seq<char>, FormatError> {
        render(self.wall_clock_spec(), pattern)
    }

    /// What a clock and a calendar in the value's zone show at its instant.
    pub fn wall_clock(&self) -> (r: WallClock)
        ensures
            r == self.wall_clock_spec(),
            r.wf(),
    {
        let nanosecond: u32 = self.nanosecond();
        let timestamp: i64 = self.as_seconds();
        let offset: i32 = match self.ut_offset() {
            Err(e) => {
                let why = Some(FormatError::TimeZone(e));
                return WallClock {
                    missing: Missing { date: why, day_of_year: why, time: why, offset: why },
                    year: 0,
                    month: 0,
                    day: 0,
                    weekday: Weekday::Sunday,
                    day_of_year: 0,
                    hour: 0,
                    minute: 0,
                    second: 0,
                    nanosecond,
                    timestamp,
                    offset: None,
                };
            },
            Ok(offset) => offset,
        };
        let local: i128 = timestamp as i128 + offset as i128;
        let last: i128 = (LAST_DAY as i128 + 1) * 86_400;
        let dated: bool = FIRST_DAY as i128 * 86_400 <= local && local < last;
        let counted: bool = FIRST_ORDINAL_DAY as i128 * 86_400 <= local && local < last;
        let date = if dated {
            self.date()
        } else {
            Date { year: 0, month: 0, day: 0 }
        };
        let specified: bool = match self.tz() {
            TimeZone::Unspecified => false,
            _ => true,
        };
        WallClock {
            missing: Missing {
                date: if dated {
                    None
                } else {
                    Some(FormatError::OutOfCalendar)
                },
                day_of_year: if counted {
                    None
                } else {
                    Some(FormatError::OutOfCalendar)
                },
                time: None,
                offset: None,
            },
            year: date.year,
            month: date.month,
            day: date.day,
            weekday: if dated {
                self.weekday()
            } else {
                Weekday::Sunday
            },
            day_of_year: if counted {
                self.day_of_year()
            } else {
                0
            },
            hour: self.hour(),
            minute: self.minute(),
            second: self.second(),
            nanosecond,
            timestamp,
            offset: if specified {
                Some(offset)
            } else {
                None
            },
        }
    }

    /// Format the given date and time according to the provided
    /// `strftime`-like string.
    pub fn format<'a>(&self, format: &'a str) -> (r: FormattedDateTime<'a>)
        ensures
            r.subject() == *self,
            r.pattern() == format@,
    {
        FormattedDateTime { dt: *self, format }
    }

    /// The debugging form of the value: the date, a space and the time, with
    /// as many digits of a second as the value needs.
    pub fn to_debug_string(&self) -> (r: Result<String, FormatError>)
        ensures
            r matches Ok(text) ==> self.formatted(
                debug_pattern(precision_of(self@ % 1_000_000_000)),
            ) == Ok::<Seq<char>, FormatError>(text@),
            r matches Err(e) ==> self.formatted(
                debug_pattern(precision_of(self@ % 1_000_000_000)),
            ) == Err::<Seq<char>, FormatError>(e),
    {
        let pattern: &str = match self.precision() {
            Precision::Second => "%Y-%m-%d %H:%M:%S",
            Precision::Millisecond => "%Y-%m-%d %H:%M:%S%.3f",
            Precision::Microsecond => "%Y-%m-%d %H:%M:%S%.6f",
            Precision::Nanosecond => "%Y-%m-%d %H:%M:%S%.9f",
        };
        self.format(pattern).to_string()
    }

    /// The serialized form of the value: the date, a `T` and the time, with
    /// no digits of a second, six or nine, and the offset from UTC where a
    /// time zone is attached.
    pub fn serialize(&self) -> (r: Result<String, FormatError>)
        ensures
            r matches Ok(text) ==> self.formatted(
                serial_pattern(precision_of(self@ % 1_000_000_000)),
            ) == Ok::<Seq<char>, FormatError>(text@),
            r matches Err(e) ==> self.formatted(
                serial_pattern(precision_of(self@ % 1_000_000_000)),
            ) == Err::<Seq<char>, FormatError>(e),
    {
        let pattern: &str = match self.precision() {
            Precision::Second => "%Y-%m-%dT%H:%M:%S%z",
            Precision::Millisecond => "%Y-%m-%dT%H:%M:%S%.6f%z",
            Precision::Microsecond => "%Y-%m-%dT%H:%M:%S%.6f%z",
            Precision::Nanosecond => "%Y-%m-%dT%H:%M:%S%.9f%z",
        };
        self.format(pattern).to_string()
    }
}

} // verus!
