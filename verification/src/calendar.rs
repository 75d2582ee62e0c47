//! The Gregorian calendar, as the `date` crate computes it.
//!
//! A day is counted from 1 January 1970, which is day zero. Years are cut
//! into eras of 400 years, which all have the same number of days, and are
//! taken to begin on 1 March, so that the day which a leap year adds is the
//! last of its year. The file states the day count of a date and the date of
//! a day count in these terms, proves that the one undoes the other, and
//! ends with the functions that make the calls.

use vstd::prelude::*;

verus! {

/// The number of seconds in a day.
pub const SECONDS_PER_DAY: i64 = 86_400;

/// The day count of 1 January -32768, the earliest day that can be built.
pub const EARLIEST_DAY: i64 = -12_687_794;

/// The day count of 1 March -32768, the first day whose year, month and day
/// can be read. The `date` crate counts the years from March and holds them
/// in 16 bits, which the January and February before that do not fit.
pub const FIRST_DAY: i64 = -12_687_734;

/// The day count of 1 January -32767, the first day whose ordinal within
/// its year can be asked for.
pub const FIRST_ORDINAL_DAY: i64 = -12_687_428;

/// The day count of 31 December 32767, the last day of the calendar.
pub const LAST_DAY: i64 = 11_248_737;

/// The number of days in an era of 400 years.
pub const DAYS_PER_ERA: i64 = 146_097;

/// The number of days from 1 March of the year 0 to 1 January 1970.
pub const DAYS_TO_EPOCH: i64 = 719_468;

/// The year of the calendar that begins in March in which the month falls:
/// January and February belong to the year before.
pub open spec fn march_year(year: int, month: int) -> int {
    if month <= 2 {
        year - 1
    } else {
        year
    }
}

/// The number of the month in a year that begins in March: 0 for March, 11
/// for February.
pub open spec fn march_month(month: int) -> int {
    if month > 2 {
        month - 3
    } else {
        month + 9
    }
}

/// The days before the month in a year that begins in March.
pub open spec fn days_before_month(march_month: int) -> int {
    (153 * march_month + 2) / 5
}

/// The days before the year in its era, for a year of the era that begins in
/// March.
pub open spec fn days_before_year(year_of_era: int) -> int {
    year_of_era * 365 + year_of_era / 4 - year_of_era / 100
}

/// The count of the day that is `day` of `month` in `year`.
pub open spec fn days_from_civil(year: int, month: int, day: int) -> int {
    let era = march_year(year, month) / 400;
    let year_of_era = march_year(year, month) - era * 400;
    let day_of_year = days_before_month(march_month(month)) + day - 1;
    era * 146_097 + days_before_year(year_of_era) + day_of_year - 719_468
}

/// The day of its era, from 0, of the day with this count.
pub open spec fn day_of_era(day: int) -> int {
    (day + 719_468) % 146_097
}

/// The year of its era, from 0, in which the day of the era falls, for years
/// that begin in March.
pub open spec fn year_of_era(day_of_era: int) -> int {
    (day_of_era - day_of_era / 1_460 + day_of_era / 36_524 - day_of_era / 146_096) / 365
}

/// The year that begins in March in which the day with this count falls.
pub open spec fn civil_march_year(day: int) -> int {
    year_of_era(day_of_era(day)) + (day + 719_468) / 146_097 * 400
}

/// The day of its year, from 0, of the day with this count, for years that
/// begin in March.
pub open spec fn day_of_march_year(day: int) -> int {
    day_of_era(day) - days_before_year(year_of_era(day_of_era(day)))
}

/// The number of the month in which the day of the year falls, for years
/// that begin in March.
pub open spec fn march_month_of(day_of_year: int) -> int {
    (5 * day_of_year + 2) / 153
}

/// The month, from 1, in which the day with this count falls.
pub open spec fn civil_month(day: int) -> int {
    let month = march_month_of(day_of_march_year(day));
    if month < 10 {
        month + 3
    } else {
        month - 9
    }
}

/// The day of the month, from 1, of the day with this count.
pub open spec fn civil_day(day: int) -> int {
    let of_year = day_of_march_year(day);
    of_year - days_before_month(march_month_of(of_year)) + 1
}

/// The year in which the day with this count falls.
pub open spec fn civil_year(day: int) -> int {
    if civil_month(day) <= 2 {
        civil_march_year(day) + 1
    } else {
        civil_march_year(day)
    }
}

/// Whether the instant, in seconds from the epoch, falls on a day whose
/// year, month and day can be read.
pub open spec fn in_calendar(instant: int) -> bool {
    FIRST_DAY <= instant / 86_400 <= LAST_DAY
}

/// Whether the instant falls on a day whose ordinal can be asked for.
pub open spec fn has_ordinal(instant: int) -> bool {
    FIRST_ORDINAL_DAY <= instant / 86_400 <= LAST_DAY
}

/// Whether the year has a 29 February.
pub open spec fn is_leap_year(year: int) -> bool {
    year % 4 == 0 && (year % 100 != 0 || year % 400 == 0)
}

/// The number of days of the month.
pub open spec fn days_in_month(year: int, month: int) -> int {
    if month == 2 {
        if is_leap_year(year) {
            29
        } else {
            28
        }
    } else if month == 4 || month == 6 || month == 9 || month == 11 {
        30
    } else {
        31
    }
}

/// Whether the calendar has such a day.
pub open spec fn is_date(year: int, month: int, day: int) -> bool {
    1 <= month <= 12 && 1 <= day <= days_in_month(year, month)
}

/// Where the day count of a date lies: within the calendar, and from 1 March
/// of the first year on, or from 1 January of the second, no earlier than
/// the count of that day.
pub proof fn lemma_day_count_bounds(year: int, month: int, day: int)
    requires
        i16::MIN <= year <= i16::MAX,
        is_date(year, month, day),
    ensures
        EARLIEST_DAY <= days_from_civil(year, month, day) <= LAST_DAY,
        year > i16::MIN || month >= 3 ==> FIRST_DAY <= days_from_civil(year, month, day),
        year > i16::MIN ==> FIRST_ORDINAL_DAY <= days_from_civil(year, month, day),
{
    let y = march_year(year, month);
    let era = y / 400;
    let of_era = y - era * 400;
    assert(0 <= of_era < 400);
    assert(-82 <= era <= 81);
    assert(0 <= days_before_month(march_month(month)) <= 337);
    assert(0 <= days_before_year(of_era) <= 145_731);
}

/// The year of the era is found again from a day of the era: the day that
/// is `of_year` days into year `t` of the `q`-th four years of century `c`.
proof fn lemma_year_of_era(c: int, q: int, t: int, of_year: int)
    requires
        0 <= c <= 3,
        0 <= q <= 24,
        0 <= t <= 3,
        0 <= of_year <= 365,
        of_year == 365 ==> t == 3 && (q < 24 || c == 3),
    ensures
        days_before_year(100 * c + 4 * q + t) == 36_524 * c + 1_461 * q + 365 * t,
        year_of_era(36_524 * c + 1_461 * q + 365 * t + of_year) == 100 * c + 4 * q + t,
{
    let n = 36_524 * c + 1_461 * q + 365 * t + of_year;
    let within = 1_461 * q + 365 * t + of_year;
    assert(0 <= within <= 36_524);
    assert(within == 36_524 ==> c == 3);
    assert(n / 146_096 == (if n == 146_096 { 1int } else { 0int }));
    assert(n / 36_524 == (if within == 36_524 { c + 1 } else { c }));
    let of_four = 365 * t + of_year;
    assert(0 <= of_four <= 1_460);
    // Each four years hold 1461 days and each century 36524, one more than
    // a multiple of 1460 and 24 more: the quotient by 1460 runs ahead of
    // the count of four-year spans by no more than one.
    assert(n == 1_460 * (25 * c + q) + (24 * c + q + of_four));
    assert(0 <= 24 * c + q + of_four <= 1_556);
    let ahead = (24 * c + q + of_four) / 1_460;
    assert(0 <= ahead <= 1);
    crate::arith::lemma_floor_division(24 * c + q + of_four, 1_460);
    crate::arith::lemma_floor_division_unique(
        n,
        1_460,
        25 * c + q + ahead,
        (24 * c + q + of_four) % 1_460,
    );
    assert(n / 1_460 == 25 * c + q + ahead);
    let e = n - n / 1_460 + n / 36_524 - n / 146_096;
    let year = 100 * c + 4 * q + t;
    assert(365 * year <= e <= 365 * year + 364);
    crate::arith::lemma_floor_division_unique(e, 365, year, e - 365 * year);
}

/// The month is found again from a day of the year: the `day`-th of month
/// `m`, for a year that begins in March.
proof fn lemma_month_of_year(m: int, day: int)
    requires
        0 <= m <= 11,
        1 <= day <= 31,
        m == 1 || m == 3 || m == 6 || m == 8 ==> day <= 30,
        m == 11 ==> day <= 29,
    ensures
        march_month_of(days_before_month(m) + day - 1) == m,
        0 <= days_before_month(m) + day - 1 <= 365,
        days_before_month(m) + day - 1 == 365 ==> m == 11 && day == 29,
{
}

/// Which year of an era is followed by a 29 February: the last of each four
/// years, but of the last four years of a century only in its last century.
proof fn lemma_leap_year_of_era(y: int, era: int, c: int, q: int, t: int)
    requires
        0 <= c <= 3,
        0 <= q <= 24,
        0 <= t <= 3,
        y == era * 400 + 100 * c + 4 * q + t,
    ensures
        is_leap_year(y + 1) <==> t == 3 && (q < 24 || c == 3),
{
    let next = y + 1;
    if t == 3 {
        let fours = era * 100 + 25 * c + q + 1;
        crate::arith::lemma_floor_division_unique(next, 4, fours, 0);
        if q == 24 {
            let hundreds = era * 4 + c + 1;
            crate::arith::lemma_floor_division_unique(next, 100, hundreds, 0);
            if c == 3 {
                crate::arith::lemma_floor_division_unique(next, 400, era + 1, 0);
            } else {
                crate::arith::lemma_floor_division_unique(next, 400, era, 100 * (c + 1));
            }
        } else {
            crate::arith::lemma_floor_division_unique(next, 100, era * 4 + c, 4 * (q + 1));
        }
    } else {
        crate::arith::lemma_floor_division_unique(next, 4, era * 100 + 25 * c + q, t + 1);
    }
}

/// The date of the day count of a date is that date.
#[verifier::rlimit(50)]
pub proof fn lemma_reads_back(year: int, month: int, day: int)
    requires
        is_date(year, month, day),
    ensures
        civil_year(days_from_civil(year, month, day)) == year,
        civil_month(days_from_civil(year, month, day)) == month,
        civil_day(days_from_civil(year, month, day)) == day,
{
    let y = march_year(year, month);
    let era = y / 400;
    let of_era = y - era * 400;
    let m = march_month(month);
    let of_year = days_before_month(m) + day - 1;
    let count = days_from_civil(year, month, day);
    crate::arith::lemma_floor_division(y, 400);
    assert(0 <= of_era < 400);
    let c = of_era / 100;
    let q = (of_era - 100 * c) / 4;
    let t = of_era - 100 * c - 4 * q;
    assert(0 <= c <= 3 && 0 <= q <= 24 && 0 <= t <= 3);
    assert(of_era == 100 * c + 4 * q + t);
    lemma_month_of_year(m, day);
    lemma_leap_year_of_era(y, era, c, q, t);
    assert(of_year == 365 ==> month == 2 && day == 29);
    assert(month == 2 ==> y + 1 == year);
    assert(of_year == 365 ==> is_leap_year(y + 1));
    lemma_year_of_era(c, q, t, of_year);
    let in_era = days_before_year(of_era) + of_year;
    assert(in_era == 36_524 * c + 1_461 * q + 365 * t + of_year);
    assert(0 <= in_era < 146_097);
    assert(count + 719_468 == 146_097 * era + in_era);
    crate::arith::lemma_floor_division_unique(count + 719_468, 146_097, era, in_era);
    assert(day_of_era(count) == in_era);
    assert(year_of_era(in_era) == of_era);
    assert(civil_march_year(count) == y);
    assert(day_of_march_year(count) == of_year);
    assert(march_month_of(of_year) == m);
    assert(civil_month(count) == month);
    assert(civil_day(count) == day);
}

/// A day of the year, for a year that begins in March, is a day of one of
/// its months.
proof fn lemma_day_in_month(of_year: int)
    requires
        0 <= of_year <= 365,
    ensures
        0 <= march_month_of(of_year) <= 11,
        1 <= of_year - days_before_month(march_month_of(of_year)) + 1 <= 31,
        ({
            let m = march_month_of(of_year);
            let day = of_year - days_before_month(m) + 1;
            &&& (m == 1 || m == 3 || m == 6 || m == 8 ==> day <= 30)
            &&& (m == 11 ==> day <= 29)
            &&& (m == 11 && day == 29 ==> of_year == 365)
        }),
{
}

/// The day count of the date of a day count is that day count, and the date
/// is one that the calendar has.
#[verifier::rlimit(50)]
pub proof fn lemma_counts_back(day: int)
    ensures
        is_date(civil_year(day), civil_month(day), civil_day(day)),
        days_from_civil(civil_year(day), civil_month(day), civil_day(day)) == day,
{
    let era = (day + 719_468) / 146_097;
    let n = day_of_era(day);
    crate::arith::lemma_floor_division(day + 719_468, 146_097);
    assert(0 <= n < 146_097);
    let c = if n / 36_524 > 3 {
        3
    } else {
        n / 36_524
    };
    let in_century = n - 36_524 * c;
    assert(0 <= in_century <= 36_524);
    assert(in_century == 36_524 ==> c == 3);
    let q = if in_century / 1_461 > 24 {
        24
    } else {
        in_century / 1_461
    };
    let in_four = in_century - 1_461 * q;
    assert(0 <= in_four <= 1_460);
    assert(in_four == 1_460 ==> q < 24 || c == 3);
    let t = if in_four / 365 > 3 {
        3
    } else {
        in_four / 365
    };
    let of_year = in_four - 365 * t;
    assert(0 <= of_year <= 365);
    assert(of_year == 365 ==> t == 3);
    lemma_year_of_era(c, q, t, of_year);
    let of_era = 100 * c + 4 * q + t;
    assert(year_of_era(n) == of_era);
    assert(day_of_march_year(day) == of_year);
    lemma_day_in_month(of_year);
    let m = march_month_of(of_year);
    let y = of_era + era * 400;
    assert(civil_march_year(day) == y);
    lemma_leap_year_of_era(y, era, c, q, t);
    let year = civil_year(day);
    let month = civil_month(day);
    assert(march_year(year, month) == y);
    assert(march_month(month) == m);
    crate::arith::lemma_floor_division_unique(y, 400, era, of_era);
}

/// A date of a year beyond sixteen bits has a day count beyond the calendar.
pub proof fn lemma_day_count_beyond(year: int, month: int, day: int)
    requires
        is_date(year, month, day),
    ensures
        year > i16::MAX ==> days_from_civil(year, month, day) > LAST_DAY,
        year < i16::MIN ==> days_from_civil(year, month, day) < EARLIEST_DAY,
{
    let y = march_year(year, month);
    let era = y / 400;
    let of_era = y - era * 400;
    crate::arith::lemma_floor_division(y, 400);
    assert(0 <= of_era < 400);
    assert(0 <= days_before_month(march_month(month)) <= 337);
    assert(0 <= days_before_year(of_era) <= 145_731);
    if year > i16::MAX {
        assert(era >= 81);
        if era == 81 {
            assert(of_era >= 367);
            assert(days_before_year(of_era) >= days_before_year(367));
        }
    }
    if year < i16::MIN {
        assert(era <= -82);
        if era == -82 {
            assert(of_era <= 31);
            assert(days_before_year(of_era) <= days_before_year(31));
        }
    }
}

/// The year of a day of the calendar fits sixteen bits.
pub proof fn lemma_year_fits(day: int)
    requires
        EARLIEST_DAY <= day <= LAST_DAY,
    ensures
        i16::MIN <= civil_year(day) <= i16::MAX,
{
    lemma_counts_back(day);
    lemma_day_count_beyond(civil_year(day), civil_month(day), civil_day(day));
}

/// The days from the year before a year of an era to that year, for years
/// that begin in March: 365, and 366 where the year before ends with a
/// 29 February.
proof fn lemma_year_length(y: int)
    ensures
        ({
            let before = y - 1;
            let span = (y / 400 * 146_097 + days_before_year(y - y / 400 * 400)) - (before / 400
                * 146_097 + days_before_year(before - before / 400 * 400));
            span == if is_leap_year(y) {
                366int
            } else {
                365int
            }
        }),
{
    let era = y / 400;
    let of_era = y - era * 400;
    crate::arith::lemma_floor_division(y, 400);
    crate::arith::lemma_floor_division(y - 1, 400);
    if of_era == 0 {
        crate::arith::lemma_floor_division_unique(y - 1, 400, era - 1, 399);
        crate::arith::lemma_floor_division_unique(y, 4, era * 100, 0);
        crate::arith::lemma_floor_division_unique(y, 100, era * 4, 0);
    } else {
        crate::arith::lemma_floor_division_unique(y - 1, 400, era, of_era - 1);
        let before = of_era - 1;
        let c = before / 100;
        let q = (before - 100 * c) / 4;
        let t = before - 100 * c - 4 * q;
        lemma_leap_year_of_era(y - 1, era, c, q, t);
        lemma_year_of_era(c, q, t, 0);
        if t == 3 {
            if q == 24 {
                lemma_year_of_era(c + 1, 0, 0, 0);
            } else {
                lemma_year_of_era(c, q + 1, 0, 0);
            }
        } else {
            lemma_year_of_era(c, q, t + 1, 0);
        }
    }
}

/// The ordinal of a day within its year, counted from the last day of the
/// year before, is from 1 to 366.
pub proof fn lemma_ordinal(day: int)
    ensures
        1 <= day - days_from_civil(civil_year(day) - 1, 12, 31) <= 366,
{
    lemma_counts_back(day);
    let year = civil_year(day);
    let month = civil_month(day);
    lemma_year_length(year);
    assert(days_before_month(9) == 275);
    assert(0 <= days_before_month(march_month(month)) <= 337);
}

/// A day of the week.
#[derive(Clone, Copy, Debug, PartialEq, Eq, Structural)]
pub enum Weekday {
    Sunday,
    Monday,
    Tuesday,
    Wednesday,
    Thursday,
    Friday,
    Saturday,
}

impl Weekday {
    /// The number of the day, from 0 for Sunday to 6 for Saturday.
    pub open spec fn index(self) -> int {
        match self {
            Weekday::Sunday => 0,
            Weekday::Monday => 1,
            Weekday::Tuesday => 2,
            Weekday::Wednesday => 3,
            Weekday::Thursday => 4,
            Weekday::Friday => 5,
            Weekday::Saturday => 6,
        }
    }

    /// The day with the given number; Saturday for any number that no day
    /// has.
    pub open spec fn of_index(index: int) -> Weekday {
        if index == 0 {
            Weekday::Sunday
        } else if index == 1 {
            Weekday::Monday
        } else if index == 2 {
            Weekday::Tuesday
        } else if index == 3 {
            Weekday::Wednesday
        } else if index == 4 {
            Weekday::Thursday
        } else if index == 5 {
            Weekday::Friday
        } else {
            Weekday::Saturday
        }
    }

    /// The number of the day, from 0 for Sunday to 6 for Saturday.
    pub fn number(&self) -> (r: u8)
        ensures
            r == self.index(),
    {
        match self {
            Weekday::Sunday => 0,
            Weekday::Monday => 1,
            Weekday::Tuesday => 2,
            Weekday::Wednesday => 3,
            Weekday::Thursday => 4,
            Weekday::Friday => 5,
            Weekday::Saturday => 6,
        }
    }
}

/// Whether the calendar has such a day.
pub fn valid_date(year: i16, month: u8, day: u8) -> (r: bool)
    ensures
        r == is_date(year as int, month as int, day as int),
{
    if month < 1 || month > 12 || day < 1 {
        return false;
    }
    let leap: bool = year % 4 == 0 && (year % 100 != 0 || year % 400 == 0);
    let length: u8 = if month == 2 {
        if leap {
            29
        } else {
            28
        }
    } else if month == 4 || month == 6 || month == 9 || month == 11 {
        30
    } else {
        31
    };
    day <= length
}

/// The Unix timestamp of midnight UTC on the given day: `date::Date::new`,
/// then `timestamp` on the date it builds.
///
/// `new` panics unless the calendar has the day, so the contract asks for
/// that. It computes the day count as `days_from_civil` states it, and
/// `timestamp` is the day count times the seconds of a day.
#[verifier::external_body]
pub(crate) fn midnight(year: i16, month: u8, day: u8) -> (r: i64)
    requires
        is_date(year as int, month as int, day as int),
    ensures
        r == days_from_civil(year as int, month as int, day as int) * 86_400,
{
    date::Date::new(year, month, day).timestamp()
}

/// The year of the day on which `instant` falls: `date::Date::from_timestamp`,
/// then `year`.
///
/// `from_timestamp` keeps the day count, `instant` divided by the seconds of
/// a day and rounded down, and `year` computes from it what `civil_year`
/// states. Before 1 March -32768 and after 31 December 32767 the crate's
/// arithmetic overflows, so the contract asks for an instant between them.
#[verifier::external_body]
pub(crate) fn year_on(instant: i64) -> (r: i16)
    requires
        in_calendar(instant as int),
    ensures
        r == civil_year(instant as int / 86_400),
{
    date::Date::from_timestamp(instant).year()
}

/// The month of the day on which `instant` falls: `date::Date::from_timestamp`,
/// then `month`, which computes what `civil_month` states.
#[verifier::external_body]
pub(crate) fn month_on(instant: i64) -> (r: u8)
    requires
        in_calendar(instant as int),
    ensures
        r == civil_month(instant as int / 86_400),
{
    date::Date::from_timestamp(instant).month()
}

/// The day of the month on which `instant` falls:
/// `date::Date::from_timestamp`, then `day`, which computes what `civil_day`
/// states.
#[verifier::external_body]
pub(crate) fn day_on(instant: i64) -> (r: u8)
    requires
        in_calendar(instant as int),
    ensures
        r == civil_day(instant as int / 86_400),
{
    date::Date::from_timestamp(instant).day()
}

/// The day of the week on which `instant` falls:
/// `date::Date::from_timestamp`, then `weekday`, which counts the days from
/// the epoch, a Thursday, and takes them modulo seven.
#[verifier::external_body]
pub(crate) fn weekday_on(instant: i64) -> (r: Weekday)
    requires
        in_calendar(instant as int),
    ensures
        r.index() == (instant as int / 86_400 + 4) % 7,
{
    match date::Date::from_timestamp(instant).weekday() {
        date::Weekday::Sunday => Weekday::Sunday,
        date::Weekday::Monday => Weekday::Monday,
        date::Weekday::Tuesday => Weekday::Tuesday,
        date::Weekday::Wednesday => Weekday::Wednesday,
        date::Weekday::Thursday => Weekday::Thursday,
        date::Weekday::Friday => Weekday::Friday,
        date::Weekday::Saturday => Weekday::Saturday,
    }
}

/// The ordinal, within its year, of the day on which `instant` falls:
/// `date::Date::from_timestamp`, then `day_of_year`.
///
/// The crate subtracts from the day count that of 31 December of the year
/// before. In the first year of the calendar there is no year before, so
/// the contract asks for a later day.
#[verifier::external_body]
pub(crate) fn ordinal_on(instant: i64) -> (r: u16)
    requires
        has_ordinal(instant as int),
    ensures
        r == instant as int / 86_400 - days_from_civil(
            civil_year(instant as int / 86_400) - 1,
            12,
            31,
        ),
{
    date::Date::from_timestamp(instant).day_of_year()
}

} // verus!
