//! Equality and order of instants.
//!
//! Two values are equal when they name the same instant, whatever their
//! zones; the earlier instant is the lesser value.

use core::cmp::Ordering;
use vstd::prelude::*;
use vstd::std_specs::cmp::PartialEqSpecImpl;
use vstd::std_specs::cmp::PartialOrdSpecImpl;
use crate::instant::DateTime;

verus! {

impl PartialEq for DateTime {
    fn eq(&self, other: &Self) -> (r: bool) {
        self.as_nanoseconds() == other.as_nanoseconds()
    }
}

impl Eq for DateTime {

}

impl PartialEqSpecImpl for DateTime {
    open spec fn obeys_eq_spec() -> bool {
        true
    }

    open spec fn eq_spec(&self, other: &Self) -> bool {
        self@ == other@
    }
}

impl DateTime {
    /// How the instant of this value stands to that of the other.
    pub open spec fn compared(self, other: DateTime) -> Ordering {
        if self@ < other@ {
            Ordering::Less
        } else if self@ == other@ {
            Ordering::Equal
        } else {
            Ordering::Greater
        }
    }

    /// Compare two values by their instants: by the seconds, and by the
    /// nanoseconds where the seconds are equal.
    pub fn cmp(&self, other: &Self) -> (r: Ordering)
        ensures
            r == self.compared(*other),
    {
        let seconds: i64 = self.as_seconds();
        let theirs: i64 = other.as_seconds();
        proof {
            crate::arith::lemma_floor_division(self@, 1_000_000_000);
            crate::arith::lemma_floor_division(other@, 1_000_000_000);
        }
        if seconds < theirs {
            Ordering::Less
        } else if seconds > theirs {
            Ordering::Greater
        } else if self.nanosecond() < other.nanosecond() {
            Ordering::Less
        } else if self.nanosecond() > other.nanosecond() {
            Ordering::Greater
        } else {
            Ordering::Equal
        }
    }
}

impl PartialOrd for DateTime {
    fn partial_cmp(&self, other: &Self) -> (r: Option<Ordering>) {
        Some(self.cmp(other))
    }
}

impl PartialOrdSpecImpl for DateTime {
    open spec fn obeys_partial_cmp_spec() -> bool {
        true
    }

    open spec fn partial_cmp_spec(&self, other: &Self) -> Option<Ordering> {
        Some(self.compared(*other))
    }
}

} // verus!
