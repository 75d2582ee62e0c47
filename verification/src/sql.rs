//! Timestamps as database columns hold them: a count of seconds or of parts
//! of a second, from the Unix epoch or from the epoch of PostgreSQL.

use vstd::prelude::*;
use crate::arith::floor_div_wide;
use crate::arith::lemma_floor_division;
use crate::instant::precision_of;
use crate::instant::DateTime;
use crate::instant::Precision;
use crate::zone::TimeZone;

verus! {

/// The Unix timestamp of the epoch of PostgreSQL, 1 January 2000 at midnight
/// UTC.
pub const POSTGRES_EPOCH: i64 = 946_684_800;

/// The nanoseconds in one of the unit by which a value of this precision is
/// counted.
pub open spec fn unit_nanos(unit: Precision) -> int {
    match unit {
        Precision::Second => 1_000_000_000,
        Precision::Millisecond => 1_000_000,
        Precision::Microsecond => 1_000,
        Precision::Nanosecond => 1,
    }
}

/// Whether the count fits in 64 bits.
pub open spec fn fits(count: int) -> bool {
    i64::MIN <= count <= i64::MAX
}

/// `Some` of the count where it fits in 64 bits.
fn narrow(count: i128) -> (r: Option<i64>)
    ensures
        r == if fits(count as int) {
            Some(count as i64)
        } else {
            None
        },
{
    if count < i64::MIN as i128 || count > i64::MAX as i128 {
        None
    } else {
        Some(count as i64)
    }
}

impl DateTime {
    /// The microseconds from the epoch of PostgreSQL to the instant, rounded
    /// down.
    pub open spec fn postgres_micros(self) -> int {
        (self@ - POSTGRES_EPOCH * 1_000_000_000) / 1_000
    }

    /// The count of the value in the unit of its precision.
    pub open spec fn unit_count(self) -> int {
        self@ / unit_nanos(precision_of(self@ % 1_000_000_000))
    }

    /// The value as PostgreSQL holds a timestamp: the microseconds from its
    /// epoch to the instant, rounded down. There is none where they do not
    /// fit in 64 bits.
    pub fn to_postgres(&self) -> (r: Option<i64>)
        ensures
            r == if fits(self.postgres_micros()) {
                Some(self.postgres_micros() as i64)
            } else {
                None
            },
    {
        let nanos: i128 = self.as_nanoseconds() - POSTGRES_EPOCH as i128 * 1_000_000_000;
        narrow(floor_div_wide(nanos, 1_000))
    }

    /// The value that PostgreSQL holds as this timestamp: the instant `micros`
    /// microseconds from its epoch.
    pub fn from_postgres(micros: i64) -> (r: DateTime)
        ensures
            r.wf(),
            r@ == POSTGRES_EPOCH * 1_000_000_000 + micros * 1_000,
            r.zone() == TimeZone::Unspecified,
    {
        let nanos: i128 = POSTGRES_EPOCH as i128 * 1_000_000_000 + micros as i128 * 1_000;
        proof {
            lemma_floor_division(nanos as int, 1_000_000_000);
        }
        DateTime::from_timestamp_nanos(nanos)
    }

    /// The value as a count from the Unix epoch in the largest unit that
    /// holds it without loss. There is none where the count does not fit in
    /// 64 bits.
    pub fn to_units(&self) -> (r: Option<(Precision, i64)>)
        ensures
            r == if fits(self.unit_count()) {
                Some((precision_of(self@ % 1_000_000_000), self.unit_count() as i64))
            } else {
                None
            },
            r matches Some((unit, count)) ==> count * unit_nanos(unit) == self@,
    {
        let unit: Precision = self.precision();
        let nanos: i128 = self.as_nanoseconds();
        let count: i128 = match unit {
            Precision::Second => floor_div_wide(nanos, 1_000_000_000),
            Precision::Millisecond => floor_div_wide(nanos, 1_000_000),
            Precision::Microsecond => floor_div_wide(nanos, 1_000),
            Precision::Nanosecond => nanos,
        };
        proof {
            lemma_exact(self@, unit);
        }
        match narrow(count) {
            Some(count) => Some((unit, count)),
            None => None,
        }
    }

    /// The instant `count` of the unit from the Unix epoch.
    pub fn from_units(unit: Precision, count: i64) -> (r: DateTime)
        ensures
            r.wf(),
            r@ == count * unit_nanos(unit),
            r.zone() == TimeZone::Unspecified,
    {
        match unit {
            Precision::Second => DateTime::from_timestamp(count, 0),
            Precision::Millisecond => DateTime::from_timestamp_millis(count),
            Precision::Microsecond => DateTime::from_timestamp_micros(count),
            Precision::Nanosecond => {
                proof {
                    lemma_floor_division(count as int, 1_000_000_000);
                }
                DateTime::from_timestamp_nanos(count as i128)
            },
        }
    }
}

/// A count of nanoseconds is a whole number of the unit of its precision.
pub proof fn lemma_exact(nanos: int, unit: Precision)
    requires
        unit == precision_of(nanos % 1_000_000_000),
    ensures
        nanos / unit_nanos(unit) * unit_nanos(unit) == nanos,
{
    let u = unit_nanos(unit);
    lemma_floor_division(nanos, 1_000_000_000);
    lemma_floor_division(nanos, u);
    lemma_floor_division(nanos % 1_000_000_000, u);
    let q = nanos / 1_000_000_000;
    let r = nanos % 1_000_000_000;
    let k = 1_000_000_000int / u;
    assert(nanos == u * (q * k + r / u) + 0) by (nonlinear_arith)
        requires
            nanos == 1_000_000_000 * q + r,
            1_000_000_000 == u * k,
            r == u * (r / u) + r % u,
            r % u == 0,
    ;
    crate::arith::lemma_floor_division_unique(nanos, u, q * k + r / u, 0);
    assert(nanos / u * u == nanos) by (nonlinear_arith)
        requires
            nanos == u * (nanos / u) + nanos % u,
            nanos % u == 0,
    ;
}

} // verus!
