//! Building a date and time from calendar fields.

use vstd::prelude::*;
use crate::calendar::civil_day;
use crate::calendar::civil_month;
use crate::calendar::civil_year;
use crate::calendar::days_from_civil;
use crate::calendar::is_date;
use crate::calendar::lemma_day_count_bounds;
use crate::calendar::lemma_reads_back;
use crate::calendar::midnight;
use crate::calendar::in_calendar;
use crate::calendar::EARLIEST_DAY;
use crate::calendar::FIRST_DAY;
use crate::calendar::FIRST_ORDINAL_DAY;
use crate::calendar::LAST_DAY;
use crate::instant::Date;
use crate::instant::DateTime;
use crate::interval::NANOS_PER_SECOND;
use crate::zone::TimeZone;
use crate::zone::TzError;

verus! {

/// What a builder holds.
pub struct BuilderView {
    /// The Unix timestamp of midnight UTC on the day.
    pub midnight: int,
    /// The seconds from midnight to the time of day.
    pub time_of_day: int,
    /// The nanoseconds within the second.
    pub nanos: int,
    /// The zone that the value will carry.
    pub zone: TimeZone,
    /// The seconds by which the wall clock of that zone is ahead of UTC.
    pub shift: int,
}

impl BuilderView {
    /// The seconds from the epoch that the wall clock shows.
    pub open spec fn wall_seconds(self) -> int {
        self.midnight + self.time_of_day
    }

    /// The nanoseconds from the epoch to the instant that the builder names.
    pub open spec fn instant(self) -> int {
        (self.wall_seconds() - self.shift) * 1_000_000_000 + self.nanos
    }

    /// What a builder starts from: midnight on a day, with no zone.
    pub open spec fn start(midnight: int) -> BuilderView {
        BuilderView { midnight, time_of_day: 0, nanos: 0, zone: TimeZone::Unspecified, shift: 0 }
    }

    /// The view with another time of day.
    pub open spec fn at_time(self, hour: int, minute: int, second: int) -> BuilderView {
        BuilderView { time_of_day: hour * 3_600 + minute * 60 + second, ..self }
    }

    /// The view with other nanoseconds.
    pub open spec fn at_nanos(self, nanos: int) -> BuilderView {
        BuilderView { nanos, ..self }
    }

    /// The view with another zone, that far ahead of UTC.
    pub open spec fn in_zone(self, zone: TimeZone, shift: int) -> BuilderView {
        BuilderView { zone, shift, ..self }
    }
}

/// What is known of the Unix timestamp of midnight UTC on a day of the
/// calendar: it is a whole number of days within the calendar, late enough
/// for the day's fields to be read unless the day is before 1 March of the
/// first year, late enough for its ordinal to be read unless it is in the
/// first year, and where the fields can be read the calendar reads it back
/// as the day.
pub open spec fn starts_on(midnight: int, year: int, month: int, day: int) -> bool {
    &&& midnight % 86_400 == 0
    &&& EARLIEST_DAY * 86_400 <= midnight <= LAST_DAY * 86_400
    &&& (year > i16::MIN || month >= 3 ==> FIRST_DAY * 86_400 <= midnight)
    &&& (year > i16::MIN ==> FIRST_ORDINAL_DAY * 86_400 <= midnight)
    &&& (FIRST_DAY * 86_400 <= midnight ==> {
        &&& civil_year(midnight / 86_400) == year
        &&& civil_month(midnight / 86_400) == month
        &&& civil_day(midnight / 86_400) == day
    })
}

/// An intermediate builder for [`DateTime`].
#[must_use]
pub struct DateTimeBuilder {
    date: i64,
    seconds: i64,
    nanos: u32,
    tz: TimeZone,
    offset: i64,
}

impl View for DateTimeBuilder {
    type V = BuilderView;

    closed spec fn view(&self) -> BuilderView {
        BuilderView {
            midnight: self.date as int,
            time_of_day: self.seconds as int,
            nanos: self.nanos as int,
            zone: self.tz,
            shift: self.offset as int,
        }
    }
}

impl DateTimeBuilder {
    /// The day is one of the calendar, the time of day is within the day, the
    /// nanoseconds are within the second, and the shift is the offset of the
    /// zone where the zone fixes it.
    #[verifier::type_invariant]
    pub closed spec fn wf(self) -> bool {
        &&& EARLIEST_DAY * 86_400 <= self.date <= LAST_DAY * 86_400
        &&& self.date as int % 86_400 == 0
        &&& 0 <= self.seconds < 86_400
        &&& self.nanos < NANOS_PER_SECOND
        &&& i32::MIN <= self.offset <= i32::MAX
        &&& match self.tz {
            TimeZone::Unspecified => self.offset == 0,
            TimeZone::FixedOffset(offset) => self.offset == offset,
            TimeZone::Named(_) => true,
        }
    }

    /// What the type's invariant says of the view.
    pub proof fn lemma_view(self)
        requires
            self.wf(),
        ensures
            EARLIEST_DAY * 86_400 <= self@.midnight <= LAST_DAY * 86_400,
            self@.midnight % 86_400 == 0,
            0 <= self@.time_of_day < 86_400,
            0 <= self@.nanos < 1_000_000_000,
            i32::MIN <= self@.shift <= i32::MAX,
            self@.zone is Unspecified ==> self@.shift == 0,
            self@.zone matches TimeZone::FixedOffset(offset) ==> self@.shift == offset,
    {
    }

    /// Attach an hour, minute, and second to the datetime.
    pub fn hms(self, hour: u8, minute: u8, second: u8) -> (r: Self)
        requires
            hour < 24,
            minute < 60,
            second < 60,
        ensures
            r.wf(),
            r@ == self@.at_time(hour as int, minute as int, second as int),
    {
        proof {
            use_type_invariant(&self);
        }
        Self {
            date: self.date,
            seconds: (hour as i64 * 3600) + (minute as i64 * 60) + second as i64,
            nanos: self.nanos,
            tz: self.tz,
            offset: self.offset,
        }
    }

    /// Attach fractional to the datetime.
    pub fn nanos(self, nanos: u32) -> (r: Self)
        requires
            nanos < NANOS_PER_SECOND,
        ensures
            r.wf(),
            r@ == self@.at_nanos(nanos as int),
    {
        proof {
            use_type_invariant(&self);
        }
        Self {
            date: self.date,
            seconds: self.seconds,
            nanos,
            tz: self.tz,
            offset: self.offset,
        }
    }

    /// What `tz` returns: the builder in the zone named `tz`, shifted by the
    /// offset that the zone has when UTC shows the builder's wall clock, or
    /// the reason why the zone has none.
    pub open spec fn zoned(view: BuilderView, tz: &'static str) -> Result<BuilderView, TzError> {
        match TimeZone::Named(tz).offset_at(view.wall_seconds()) {
            Ok(offset) => Ok(view.in_zone(TimeZone::Named(tz), offset as int)),
            Err(e) => Err(e),
        }
    }

    /// Attach a timezone to the datetime.
    ///
    /// This method assumes that the timezone _modifies_ the underlying
    /// timestamp; in other words, the YMD/HMS specified to the date and time
    /// builder should be preserved, and the time zone's offset applied to the
    /// underlying timestamp to preserve the date and time on the wall clock.
    pub fn tz(self, tz: &'static str) -> (r: Result<Self, TzError>)
        ensures
            r is Ok == Self::zoned(self@, tz) is Ok,
            r matches Ok(b) ==> b.wf() && Ok::<BuilderView, TzError>(b@) == Self::zoned(self@, tz),
            r matches Err(e) ==> Err::<BuilderView, TzError>(e) == Self::zoned(self@, tz),
    {
        proof {
            use_type_invariant(&self);
        }
        match TimeZone::Named(tz).ut_offset(self.date + self.seconds) {
            Ok(offset) => Ok(
                Self {
                    date: self.date,
                    seconds: self.seconds,
                    nanos: self.nanos,
                    tz: TimeZone::Named(tz),
                    offset: offset as i64,
                },
            ),
            Err(e) => Err(e),
        }
    }

    /// Attach a UTC offset to the datetime.
    ///
    /// This method assumes that the offset _modifies_ the underlying
    /// timestamp; in other words, the YMD/HMS specified to the date and time
    /// builder should be preserved, and the offset applied to the underlying
    /// timestamp to preserve the date and time on the wall clock.
    pub fn utc_offset(self, offset: i32) -> (r: Self)
        ensures
            r.wf(),
            r@ == self@.in_zone(TimeZone::FixedOffset(offset), offset as int),
    {
        proof {
            use_type_invariant(&self);
        }
        Self {
            date: self.date,
            seconds: self.seconds,
            nanos: self.nanos,
            tz: TimeZone::FixedOffset(offset),
            offset: offset as i64,
        }
    }

    /// Build the final [`DateTime`] object.
    ///
    /// Unless the zone is a named one, the value shows the wall clock that
    /// the builder was given.
    pub fn build(self) -> (r: DateTime)
        ensures
            r.wf(),
            r@ == self@.instant(),
            r.zone() == self@.zone,
            !(self@.zone is Named) ==> r.offset() is Ok && r.local_seconds()
                == self@.wall_seconds(),
            !(self@.zone is Named) && in_calendar(self@.wall_seconds()) ==> r.has_wall_clock(),
    {
        proof {
            use_type_invariant(&self);
        }
        let seconds: i64 = self.date + self.seconds - self.offset;
        let r = DateTime::assemble(seconds, self.nanos, self.tz);
        proof {
            crate::arith::lemma_floor_division_unique(
                r@,
                1_000_000_000,
                seconds as int,
                self.nanos as int,
            );
            crate::arith::lemma_floor_division_unique(
                self.date + self.seconds,
                86_400,
                self.date as int / 86_400,
                self.seconds as int,
            );
            crate::arith::lemma_floor_division(self.date as int, 86_400);
        }
        r
    }
}

impl DateTime {
    /// Create a new date and time object.
    ///
    /// The builder starts at midnight UTC on the day, and the calendar reads
    /// that day back as the year, the month and the day given.
    pub fn ymd(year: i16, month: u8, day: u8) -> (r: DateTimeBuilder)
        requires
            is_date(year as int, month as int, day as int),
        ensures
            r.wf(),
            r@ == BuilderView::start(
                days_from_civil(year as int, month as int, day as int) * 86_400,
            ),
            starts_on(r@.midnight, year as int, month as int, day as int),
    {
        let date: i64 = midnight(year, month, day);
        proof {
            let count = days_from_civil(year as int, month as int, day as int);
            lemma_day_count_bounds(year as int, month as int, day as int);
            lemma_reads_back(year as int, month as int, day as int);
            crate::arith::lemma_floor_division_unique(count * 86_400, 86_400, count, 0);
        }
        DateTimeBuilder { date, seconds: 0, nanos: 0, tz: TimeZone::Unspecified, offset: 0 }
    }
}

/// Convert from a date into a datetime, by way of a builder.
pub trait FromDate: Sized {
    /// The year, the month and the day of the date.
    spec fn civil(self) -> (int, int, int);

    /// Create a `DateTimeBuilder` for this date.
    fn hms(self, hour: u8, minute: u8, second: u8) -> (r: DateTimeBuilder)
        requires
            is_date(self.civil().0, self.civil().1, self.civil().2),
            hour < 24,
            minute < 60,
            second < 60,
        ensures
            r.wf(),
            r@ == BuilderView::start(
                days_from_civil(self.civil().0, self.civil().1, self.civil().2) * 86_400,
            ).at_time(hour as int, minute as int, second as int),
            starts_on(r@.midnight, self.civil().0, self.civil().1, self.civil().2),
    ;
}

impl FromDate for Date {
    open spec fn civil(self) -> (int, int, int) {
        (self.year as int, self.month as int, self.day as int)
    }

    fn hms(self, hour: u8, minute: u8, second: u8) -> (r: DateTimeBuilder) {
        DateTime::ymd(self.year, self.month, self.day).hms(hour, minute, second)
    }
}

} // verus!
