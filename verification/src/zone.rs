//! Time zones and their offsets from UTC.

use vstd::prelude::*;

verus! {

/// Why a time zone gave no offset.
#[derive(Clone, Copy, Debug, PartialEq, Eq, Structural)]
pub enum TzError {
    /// The time zone database holds no zone of that name.
    UnknownZone,
    /// The zone has no local time for the instant that was asked about.
    NoLocalTime,
}

/// The offset from UTC, in seconds, that the time zone database gives for
/// the zone named `id` at `instant` seconds after the epoch, or why it gives
/// none.
pub uninterp spec fn zone_offset(id: Seq<char>, instant: int) -> Result<i32, TzError>;

/// Looks the zone up with `date::tz::tz_by_name`, asks it for its local time
/// at `instant` with `find_local_time_type`, and reads that local time's
/// `ut_offset`. The database is compiled into the program, so the answer
/// depends on the name and the instant alone: the contract gives it the name
/// `zone_offset` and claims nothing more of it.
#[verifier::external_body]
fn lookup_offset(id: &str, instant: i64) -> (r: Result<i32, TzError>)
    ensures
        r == zone_offset(id@, instant as int),
{
    match date::tz::tz_by_name(id) {
        Some(zone) => match zone.find_local_time_type(instant) {
            Ok(local) => Ok(local.ut_offset()),
            Err(_) => Err(TzError::NoLocalTime),
        },
        None => Err(TzError::UnknownZone),
    }
}

/// The time zone attached to a date and time.
///
/// The zone never changes which instant a value names; it decides which wall
/// clock the accessors read.
#[derive(Clone, Copy, Debug)]
pub enum TimeZone {
    /// No zone was given: the wall clock is UTC.
    Unspecified,
    /// A fixed offset from UTC, in seconds.
    FixedOffset(i32),
    /// A zone of the time zone database, by name, such as `Europe/Berlin`.
    Named(&'static str),
}

impl TimeZone {
    /// The offset of this zone from UTC, in seconds, at `instant` seconds
    /// after the epoch.
    pub open spec fn offset_at(self, instant: int) -> Result<i32, TzError> {
        match self {
            TimeZone::Unspecified => Ok(0i32),
            TimeZone::FixedOffset(offset) => Ok(offset),
            TimeZone::Named(id) => zone_offset(id@, instant),
        }
    }

    /// Whether a zone was given.
    pub open spec fn is_specified(self) -> bool {
        !(self is Unspecified)
    }

    /// The offset of this zone from UTC, in seconds, at the given Unix
    /// timestamp.
    pub fn ut_offset(&self, timestamp: i64) -> (r: Result<i32, TzError>)
        ensures
            r == self.offset_at(timestamp as int),
    {
        match self {
            TimeZone::Unspecified => Ok(0),
            TimeZone::FixedOffset(offset) => Ok(*offset),
            TimeZone::Named(id) => lookup_offset(id, timestamp),
        }
    }
}

} // verus!
