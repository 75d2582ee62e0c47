//! Instants: the date and time type, its constructors, its accessors and its
//! arithmetic with intervals.

use vstd::prelude::*;
use crate::arith::floor_div;
use crate::arith::floor_div_wide;
use crate::arith::floor_mod;
use crate::arith::floor_mod_wide;
use crate::arith::lemma_floor_division;
use crate::arith::lemma_floor_division_unique;
use crate::calendar::day_on;
use crate::calendar::has_ordinal;
use crate::calendar::in_calendar;
use crate::calendar::lemma_counts_back;
use crate::calendar::lemma_ordinal;
use crate::calendar::month_on;
use crate::calendar::ordinal_on;
use crate::calendar::weekday_on;
use crate::calendar::year_on;
use crate::calendar::civil_day;
use crate::calendar::civil_month;
use crate::calendar::civil_year;
use crate::calendar::days_from_civil;
use crate::calendar::Weekday;
use crate::interval::lemma_scaled;
use crate::interval::TimeInterval;
use crate::interval::NANOS_PER_SECOND;
use crate::zone::TimeZone;
use crate::zone::TzError;

verus! {

/// The precision that a timestamp requires in order to be represented with no
/// fidelity loss.
#[derive(Clone, Copy, Debug, PartialEq, Eq, Structural)]
pub enum Precision {
    Second,
    Millisecond,
    Microsecond,
    Nanosecond,
}

/// The precision that `nanos` nanoseconds within a second require.
pub open spec fn precision_of(nanos: int) -> Precision {
    if nanos == 0 {
        Precision::Second
    } else if nanos % 1_000_000 == 0 {
        Precision::Millisecond
    } else if nanos % 1_000 == 0 {
        Precision::Microsecond
    } else {
        Precision::Nanosecond
    }
}

/// A calendar date: a year, a month from 1 and a day of the month from 1.
#[derive(Clone, Copy, Debug, PartialEq, Eq, Structural)]
pub struct Date {
    pub year: i16,
    pub month: u8,
    pub day: u8,
}

/// A representation of a date and time.
///
/// The value is an instant, counted in nanoseconds from the Unix epoch and
/// held as whole seconds rounded down and the nanoseconds left over, and the
/// time zone whose wall clock the accessors read. The view of a value is the
/// count of nanoseconds; the zone is no part of it.
#[derive(Clone, Copy, Debug)]
pub struct DateTime {
    seconds: i64,
    nanos: u32,
    tz: TimeZone,
}

impl View for DateTime {
    type V = int;

    closed spec fn view(&self) -> int {
        self.seconds as int * 1_000_000_000 + self.nanos as int
    }
}

impl DateTime {
    /// The nanoseconds are less than one second.
    #[verifier::type_invariant]
    pub closed spec fn wf(self) -> bool {
        self.nanos < NANOS_PER_SECOND
    }

    /// The time zone attached to the value.
    pub closed spec fn zone(self) -> TimeZone {
        self.tz
    }

    /// Whether the whole seconds of `n` nanoseconds fit the seconds field.
    pub open spec fn representable(n: int) -> bool {
        i64::MIN <= n / 1_000_000_000 <= i64::MAX
    }

    /// The instant `n` nanoseconds after the epoch, in the given zone.
    pub closed spec fn at(n: int, zone: TimeZone) -> DateTime {
        DateTime {
            seconds: (n / 1_000_000_000) as i64,
            nanos: (n % 1_000_000_000) as u32,
            tz: zone,
        }
    }

    /// The whole seconds from the epoch to the instant, rounded down.
    pub open spec fn epoch_seconds(self) -> int {
        self@ / 1_000_000_000
    }

    /// The offset from UTC of the value's zone at its instant, in seconds.
    pub open spec fn offset(self) -> Result<i32, TzError> {
        self.zone().offset_at(self.epoch_seconds())
    }

    /// The seconds from the epoch that a clock in the value's zone shows at
    /// its instant. It is meant for values whose zone has an offset.
    pub open spec fn local_seconds(self) -> int {
        match self.offset() {
            Ok(offset) => self.epoch_seconds() + offset,
            Err(_) => self.epoch_seconds(),
        }
    }

    /// The count of the day that a calendar in the value's zone shows.
    pub open spec fn local_day(self) -> int {
        self.local_seconds() / 86_400
    }

    /// Whether the value has a wall clock: its zone has an offset at its
    /// instant, and the day that a clock there shows is in the calendar.
    pub open spec fn has_wall_clock(self) -> bool {
        self.offset() is Ok && in_calendar(self.local_seconds())
    }

    /// The fields of a well-formed value are the quotient and the remainder
    /// of its count by one second.
    proof fn lemma_fields(self)
        requires
            self.wf(),
        ensures
            self@ / 1_000_000_000 == self.seconds,
            self@ % 1_000_000_000 == self.nanos,
    {
        lemma_floor_division_unique(self@, 1_000_000_000, self.seconds as int, self.nanos as int);
    }

    /// `at` builds a well-formed value of the count and the zone it is given.
    pub proof fn lemma_at(n: int, zone: TimeZone)
        requires
            Self::representable(n),
        ensures
            Self::at(n, zone).wf(),
            Self::at(n, zone)@ == n,
            Self::at(n, zone).zone() == zone,
    {
        lemma_floor_division(n, 1_000_000_000);
    }

    /// A well-formed value is the value of its own count and zone.
    pub proof fn lemma_canonical(self)
        requires
            self.wf(),
        ensures
            Self::representable(self@),
            self == Self::at(self@, self.zone()),
    {
        self.lemma_fields();
    }

    /// Create a new date and time object from the given Unix timestamp.
    ///
    /// Nanoseconds of a second or more are carried into the seconds.
    pub fn from_timestamp(timestamp: i64, nanos: u32) -> (r: Self)
        requires
            timestamp + nanos / NANOS_PER_SECOND <= i64::MAX,
        ensures
            r.wf(),
            r@ == timestamp * 1_000_000_000 + nanos,
            r.zone() == TimeZone::Unspecified,
    {
        let mut timestamp: i64 = timestamp;
        let mut nanos: u32 = nanos;
        let ghost total: int = timestamp * 1_000_000_000 + nanos;
        let ghost limit: int = timestamp + nanos / NANOS_PER_SECOND;
        while nanos >= NANOS_PER_SECOND
            invariant
                timestamp * 1_000_000_000 + nanos == total,
                timestamp + nanos / NANOS_PER_SECOND == limit,
                limit <= i64::MAX,
            decreases nanos,
        {
            nanos -= NANOS_PER_SECOND;
            timestamp += 1;
        }
        Self { seconds: timestamp, nanos, tz: TimeZone::Unspecified }
    }

    /// Create a new date and time object from the given Unix timestamp in
    /// milliseconds.
    pub fn from_timestamp_millis(millis: i64) -> (r: Self)
        ensures
            r.wf(),
            r@ == millis * 1_000_000,
            r.zone() == TimeZone::Unspecified,
    {
        let seconds: i64 = floor_div(millis, 1_000);
        let rest: i64 = floor_mod(millis, 1_000);
        proof {
            lemma_floor_division(millis as int, 1_000);
        }
        Self::from_timestamp(seconds, rest as u32 * 1_000_000)
    }

    /// Create a new date and time object from the given Unix timestamp in
    /// microseconds.
    pub fn from_timestamp_micros(micros: i64) -> (r: Self)
        ensures
            r.wf(),
            r@ == micros * 1_000,
            r.zone() == TimeZone::Unspecified,
    {
        let seconds: i64 = floor_div(micros, 1_000_000);
        let rest: i64 = floor_mod(micros, 1_000_000);
        proof {
            lemma_floor_division(micros as int, 1_000_000);
        }
        Self::from_timestamp(seconds, rest as u32 * 1_000)
    }

    /// Create a new date and time object from the given Unix timestamp in
    /// nanoseconds.
    pub fn from_timestamp_nanos(nanos: i128) -> (r: Self)
        requires
            Self::representable(nanos as int),
        ensures
            r.wf(),
            r@ == nanos,
            r.zone() == TimeZone::Unspecified,
    {
        let seconds: i128 = floor_div_wide(nanos, 1_000_000_000);
        let rest: i128 = floor_mod_wide(nanos, 1_000_000_000);
        proof {
            lemma_floor_division(nanos as int, 1_000_000_000);
        }
        Self::from_timestamp(seconds as i64, rest as u32)
    }

    /// The instant of whole seconds and nanoseconds below a second, in the
    /// given zone.
    pub(crate) fn assemble(seconds: i64, nanos: u32, tz: TimeZone) -> (r: Self)
        requires
            nanos < NANOS_PER_SECOND,
        ensures
            r.wf(),
            r@ == seconds * 1_000_000_000 + nanos,
            r.zone() == tz,
            r == Self::at(seconds * 1_000_000_000 + nanos, tz),
    {
        let r = Self { seconds, nanos, tz };
        proof {
            r.lemma_canonical();
        }
        r
    }

    /// Set the time zone to the provided time zone, without adjusting the
    /// underlying absolute timestamp.
    ///
    /// This method modifies the wall clock time while maintaining the
    /// underlying absolute timestamp. To modify the timestamp instead, use
    /// `in_tz`.
    pub fn with_tz(self, tz: &'static str) -> (r: Self)
        ensures
            r.wf(),
            r@ == self@,
            r.zone() == TimeZone::Named(tz),
    {
        proof {
            use_type_invariant(self);
        }
        Self { seconds: self.seconds, nanos: self.nanos, tz: TimeZone::Named(tz) }
    }

    /// The time zone attached to the value.
    pub fn tz(&self) -> (r: TimeZone)
        ensures
            r == self.zone(),
    {
        self.tz
    }

    /// The offset from UTC of the value's zone at its instant, in seconds.
    pub fn ut_offset(&self) -> (r: Result<i32, TzError>)
        ensures
            r == self.offset(),
    {
        proof {
            use_type_invariant(self);
            self.lemma_fields();
        }
        self.tz.ut_offset(self.seconds)
    }

    /// The nanosecond of the second for this date and time. Range: `[0,
    /// 1_000_000_000)`
    pub fn nanosecond(&self) -> (r: u32)
        ensures
            r == self@ % 1_000_000_000,
            r < NANOS_PER_SECOND,
    {
        proof {
            use_type_invariant(self);
            self.lemma_fields();
        }
        self.nanos
    }

    /// The number of seconds since the Unix epoch for this date and time.
    pub fn as_seconds(&self) -> (r: i64)
        ensures
            r == self@ / 1_000_000_000,
    {
        proof {
            use_type_invariant(self);
            self.lemma_fields();
        }
        self.seconds
    }

    /// The number of milliseconds since the Unix epoch for this date and
    /// time, rounded down.
    pub fn as_milliseconds(&self) -> (r: i64)
        requires
            i64::MIN <= self@ / 1_000_000 <= i64::MAX,
        ensures
            r == self@ / 1_000_000,
    {
        proof {
            use_type_invariant(self);
            lemma_scaled(self.seconds as int, self.nanos as int, 1_000, 1_000_000);
        }
        let wide: i128 = self.seconds as i128 * 1_000 + (self.nanos / 1_000_000) as i128;
        wide as i64
    }

    /// The number of microseconds since the Unix epoch for this date and
    /// time, rounded down.
    pub fn as_microseconds(&self) -> (r: i64)
        requires
            i64::MIN <= self@ / 1_000 <= i64::MAX,
        ensures
            r == self@ / 1_000,
    {
        proof {
            use_type_invariant(self);
            lemma_scaled(self.seconds as int, self.nanos as int, 1_000_000, 1_000);
        }
        let wide: i128 = self.seconds as i128 * 1_000_000 + (self.nanos / 1_000) as i128;
        wide as i64
    }

    /// The number of nanoseconds since the Unix epoch for this date and time.
    pub fn as_nanoseconds(&self) -> (r: i128)
        ensures
            r == self@,
            i64::MIN * 1_000_000_000 <= r < (i64::MAX + 1) * 1_000_000_000,
    {
        proof {
            use_type_invariant(self);
        }
        self.seconds as i128 * 1_000_000_000 + self.nanos as i128
    }

    /// Whether the seconds of the instant leave room, within 64 bits, for the
    /// difference of two offsets.
    pub open spec fn shiftable(self) -> bool {
        i64::MIN + 0x1_0000_0000 <= self.epoch_seconds() <= i64::MAX - 0x1_0000_0000
    }

    /// What `in_tz` returns: the value that shows the same wall clock in the
    /// zone named `tz` as this value shows in its own, or the reason why one
    /// of the two zones has no offset at this instant.
    pub open spec fn moved_to(self, tz: &'static str) -> Result<DateTime, TzError> {
        match self.offset() {
            Err(e) => Err(e),
            Ok(existing) => match TimeZone::Named(tz).offset_at(self.epoch_seconds()) {
                Err(e) => Err(e),
                Ok(desired) => Ok(
                    Self::at(self@ + (existing - desired) * 1_000_000_000, TimeZone::Named(tz)),
                ),
            },
        }
    }

    /// Set the timestamp to the same wall clock time in the provided time
    /// zone.
    ///
    /// This method modifies the underlying timestamp while maintaining the
    /// wall clock time. To maintain the timestamp instead, use `with_tz`.
    pub fn in_tz(self, tz: &'static str) -> (r: Result<Self, TzError>)
        requires
            self.shiftable(),
        ensures
            r == self.moved_to(tz),
            r is Ok ==> r->Ok_0.wf(),
    {
        proof {
            use_type_invariant(self);
            self.lemma_fields();
        }
        let existing: i64 = match self.tz.ut_offset(self.seconds) {
            Ok(offset) => offset as i64,
            Err(e) => {
                return Err(e);
            },
        };
        let desired: i64 = match TimeZone::Named(tz).ut_offset(self.seconds) {
            Ok(offset) => offset as i64,
            Err(e) => {
                return Err(e);
            },
        };
        let seconds: i64 = self.seconds + (existing - desired);
        Ok(Self::assemble(seconds, self.nanos, TimeZone::Named(tz)))
    }

    /// Provide the offset, in seconds.
    fn tz_offset(&self) -> (r: i64)
        requires
            self.offset() is Ok,
        ensures
            self.offset() == Ok::<i32, TzError>(r as i32),
            i32::MIN <= r <= i32::MAX,
    {
        match self.ut_offset() {
            Ok(offset) => offset as i64,
            Err(_) => vstd::pervasive::unreached(),
        }
    }

    /// Provide the number of seconds since the epoch in the time zone with
    /// the same offset as this datetime's time zone.
    fn tz_adjusted_seconds(&self) -> (r: i64)
        requires
            self.has_wall_clock(),
        ensures
            r == self.local_seconds(),
    {
        proof {
            use_type_invariant(self);
            self.lemma_fields();
        }
        self.seconds + self.tz_offset()
    }

    /// The seconds that a clock in the value's zone shows, on as many bits
    /// as the sum of the seconds and the offset can fill.
    fn clock_seconds(&self) -> (r: i128)
        requires
            self.offset() is Ok,
        ensures
            r == self.local_seconds(),
    {
        proof {
            use_type_invariant(self);
            self.lemma_fields();
        }
        self.seconds as i128 + self.tz_offset() as i128
    }

    /// The year for this date.
    pub fn year(&self) -> (r: i16)
        requires
            self.has_wall_clock(),
        ensures
            r == civil_year(self.local_day()),
    {
        year_on(self.tz_adjusted_seconds())
    }

    /// The month for this date.
    pub fn month(&self) -> (r: u8)
        requires
            self.has_wall_clock(),
        ensures
            r == civil_month(self.local_day()),
            1 <= r <= 12,
    {
        proof {
            lemma_counts_back(self.local_day());
        }
        month_on(self.tz_adjusted_seconds())
    }

    /// The day of the month for this date.
    pub fn day(&self) -> (r: u8)
        requires
            self.has_wall_clock(),
        ensures
            r == civil_day(self.local_day()),
            1 <= r <= 31,
    {
        proof {
            lemma_counts_back(self.local_day());
        }
        day_on(self.tz_adjusted_seconds())
    }

    /// The day of the week for this date.
    pub fn weekday(&self) -> (r: Weekday)
        requires
            self.has_wall_clock(),
        ensures
            r.index() == (self.local_day() + 4) % 7,
    {
        weekday_on(self.tz_adjusted_seconds())
    }

    /// The hour of the day for this date and time. Range: `[0, 24)`
    pub fn hour(&self) -> (r: u8)
        requires
            self.offset() is Ok,
        ensures
            r == self.local_seconds() % 86_400 / 3_600,
            r < 24,
    {
        let of_day: i128 = floor_mod_wide(self.clock_seconds(), 86_400);
        (of_day / 3_600) as u8
    }

    /// The minute of the hour for this date and time. Range: `[0, 60)`
    pub fn minute(&self) -> (r: u8)
        requires
            self.offset() is Ok,
        ensures
            r == self.local_seconds() % 3_600 / 60,
            r < 60,
    {
        let of_hour: i128 = floor_mod_wide(self.clock_seconds(), 3_600);
        (of_hour / 60) as u8
    }

    /// The second of the minute for this date and time. Range: `[0, 60)`
    pub fn second(&self) -> (r: u8)
        requires
            self.offset() is Ok,
        ensures
            r == self.local_seconds() % 60,
            r < 60,
    {
        floor_mod_wide(self.clock_seconds(), 60) as u8
    }

    /// The ordinal day of the year.
    pub fn day_of_year(&self) -> (r: u16)
        requires
            self.has_wall_clock(),
            has_ordinal(self.local_seconds()),
        ensures
            r == self.local_day() - days_from_civil(civil_year(self.local_day()) - 1, 12, 31),
            1 <= r <= 366,
    {
        proof {
            lemma_ordinal(self.local_day());
        }
        ordinal_on(self.tz_adjusted_seconds())
    }

    /// The date corresponding to this datetime.
    pub fn date(&self) -> (r: Date)
        requires
            self.has_wall_clock(),
        ensures
            r.year == civil_year(self.local_day()),
            r.month == civil_month(self.local_day()),
            r.day == civil_day(self.local_day()),
            1 <= r.month <= 12,
            1 <= r.day <= 31,
    {
        Date { year: self.year(), month: self.month(), day: self.day() }
    }

    /// The precision required to represent this timestamp with no fidelity
    /// loss.
    pub fn precision(&self) -> (r: Precision)
        ensures
            r == precision_of(self@ % 1_000_000_000),
    {
        proof {
            use_type_invariant(self);
            self.lemma_fields();
        }
        if self.nanos == 0 {
            Precision::Second
        } else if self.nanos % 1_000_000 == 0 {
            Precision::Millisecond
        } else if self.nanos % 1_000 == 0 {
            Precision::Microsecond
        } else {
            Precision::Nanosecond
        }
    }
}

impl DateTime {
    /// The value `rhs` later, in the same zone.
    pub open spec fn plus(self, rhs: TimeInterval) -> DateTime {
        Self::at(self@ + rhs@, self.zone())
    }

    /// The value `rhs` earlier, in the same zone.
    pub open spec fn minus(self, rhs: TimeInterval) -> DateTime {
        Self::at(self@ - rhs@, self.zone())
    }

    /// The interval from `earlier` to this value.
    pub open spec fn since(self, earlier: DateTime) -> TimeInterval {
        TimeInterval::of_nanos(self@ - earlier@)
    }

    /// Move the value later by `rhs`.
    pub fn add_assign(&mut self, rhs: TimeInterval)
        requires
            Self::representable(old(self)@ + rhs@),
        ensures
            *final(self) == old(self).plus(rhs),
            final(self).wf(),
            final(self)@ == old(self)@ + rhs@,
            final(self).zone() == old(self).zone(),
    {
        *self = *self + rhs;
    }

    /// Move the value earlier by `rhs`.
    pub fn sub_assign(&mut self, rhs: TimeInterval)
        requires
            Self::representable(old(self)@ - rhs@),
        ensures
            *final(self) == old(self).minus(rhs),
            final(self).wf(),
            final(self)@ == old(self)@ - rhs@,
            final(self).zone() == old(self).zone(),
    {
        *self = *self - rhs;
    }

    /// Adding an interval and taking it away again gives the value back.
    pub proof fn lemma_add_then_sub(self, rhs: TimeInterval)
        requires
            self.wf(),
            rhs.wf(),
            Self::representable(self@ + rhs@),
        ensures
            self.plus(rhs).wf(),
            Self::representable(self.plus(rhs)@ - rhs@),
            self.plus(rhs).minus(rhs) == self,
    {
        Self::lemma_at(self@ + rhs@, self.zone());
        self.lemma_canonical();
    }

    /// Taking an interval away and adding it again gives the value back.
    pub proof fn lemma_sub_then_add(self, rhs: TimeInterval)
        requires
            self.wf(),
            rhs.wf(),
            Self::representable(self@ - rhs@),
        ensures
            self.minus(rhs).wf(),
            Self::representable(self.minus(rhs)@ + rhs@),
            self.minus(rhs).plus(rhs) == self,
    {
        Self::lemma_at(self@ - rhs@, self.zone());
        self.lemma_canonical();
    }

    /// Adding the empty interval changes nothing.
    pub proof fn lemma_add_zero(self, rhs: TimeInterval)
        requires
            self.wf(),
            rhs@ == 0,
        ensures
            self.plus(rhs) == self,
            self.minus(rhs) == self,
    {
        self.lemma_canonical();
    }

    /// The interval between two values, added to the earlier, gives the
    /// instant of the later.
    pub proof fn lemma_since_then_add(self, earlier: DateTime)
        requires
            self.wf(),
            earlier.wf(),
            TimeInterval::representable(self@ - earlier@),
        ensures
            self.since(earlier).wf(),
            self.since(earlier)@ == self@ - earlier@,
            earlier.plus(self.since(earlier))@ == self@,
    {
        TimeInterval::lemma_of_nanos(self@ - earlier@);
        self.lemma_canonical();
        Self::lemma_at(self@, earlier.zone());
    }
}

impl core::ops::Add<TimeInterval> for DateTime {
    type Output = DateTime;

    /// The value `rhs` later: seconds and nanoseconds are summed field by
    /// field, and a second is carried where the nanoseconds reach one.
    fn add(self, rhs: TimeInterval) -> (r: DateTime)
        ensures
            r.wf(),
            r@ == self@ + rhs@,
            r.zone() == self.zone(),
    {
        proof {
            use_type_invariant(self);
            use_type_invariant(rhs);
            self.lemma_fields();
            rhs.lemma_canonical();
            lemma_floor_division(rhs@, 1_000_000_000);
        }
        let mut seconds: i128 = self.seconds as i128 + rhs.seconds() as i128;
        let mut nanos: u32 = self.nanos + rhs.nanoseconds();
        if nanos >= NANOS_PER_SECOND {
            nanos -= NANOS_PER_SECOND;
            seconds += 1;
        }
        proof {
            lemma_floor_division_unique(
                self@ + rhs@,
                1_000_000_000,
                seconds as int,
                nanos as int,
            );
        }
        Self::assemble(seconds as i64, nanos, self.tz)
    }
}

impl vstd::std_specs::ops::AddSpecImpl<TimeInterval> for DateTime {
    open spec fn obeys_add_spec() -> bool {
        true
    }

    open spec fn add_req(self, rhs: TimeInterval) -> bool {
        DateTime::representable(self@ + rhs@)
    }

    open spec fn add_spec(self, rhs: TimeInterval) -> DateTime {
        self.plus(rhs)
    }
}

impl core::ops::Sub<TimeInterval> for DateTime {
    type Output = DateTime;

    /// The value `rhs` earlier: seconds and nanoseconds are subtracted field
    /// by field, and a second is borrowed where the nanoseconds would fall
    /// below zero.
    fn sub(self, rhs: TimeInterval) -> (r: DateTime)
        ensures
            r.wf(),
            r@ == self@ - rhs@,
            r.zone() == self.zone(),
    {
        proof {
            use_type_invariant(self);
            use_type_invariant(rhs);
            self.lemma_fields();
            rhs.lemma_canonical();
            lemma_floor_division(rhs@, 1_000_000_000);
        }
        let mut seconds: i128 = self.seconds as i128 - rhs.seconds() as i128;
        let nanos: u32 = if self.nanos >= rhs.nanoseconds() {
            self.nanos - rhs.nanoseconds()
        } else {
            seconds -= 1;
            self.nanos + NANOS_PER_SECOND - rhs.nanoseconds()
        };
        proof {
            lemma_floor_division_unique(
                self@ - rhs@,
                1_000_000_000,
                seconds as int,
                nanos as int,
            );
        }
        Self::assemble(seconds as i64, nanos, self.tz)
    }
}

impl vstd::std_specs::ops::SubSpecImpl<TimeInterval> for DateTime {
    open spec fn obeys_sub_spec() -> bool {
        true
    }

    open spec fn sub_req(self, rhs: TimeInterval) -> bool {
        DateTime::representable(self@ - rhs@)
    }

    open spec fn sub_spec(self, rhs: TimeInterval) -> DateTime {
        self.minus(rhs)
    }
}

impl core::ops::Sub<DateTime> for DateTime {
    type Output = TimeInterval;

    /// The interval from `rhs` to this value, by the same borrow.
    fn sub(self, rhs: DateTime) -> (r: TimeInterval)
        ensures
            r.wf(),
            r@ == self@ - rhs@,
    {
        proof {
            use_type_invariant(self);
            use_type_invariant(rhs);
            self.lemma_fields();
            rhs.lemma_fields();
        }
        let mut seconds: i128 = self.seconds as i128 - rhs.seconds as i128;
        let nanos: u32 = if self.nanos >= rhs.nanos {
            self.nanos - rhs.nanos
        } else {
            seconds -= 1;
            self.nanos + NANOS_PER_SECOND - rhs.nanos
        };
        proof {
            lemma_floor_division_unique(
                self@ - rhs@,
                1_000_000_000,
                seconds as int,
                nanos as int,
            );
        }
        let r = TimeInterval::new(seconds as i64, nanos);
        proof {
            r.lemma_canonical();
        }
        r
    }
}

impl vstd::std_specs::ops::SubSpecImpl<DateTime> for DateTime {
    open spec fn obeys_sub_spec() -> bool {
        true
    }

    open spec fn sub_req(self, rhs: DateTime) -> bool {
        TimeInterval::representable(self@ - rhs@)
    }

    open spec fn sub_spec(self, rhs: DateTime) -> TimeInterval {
        self.since(rhs)
    }
}

} // verus!
