//! Signed spans of time.

use vstd::prelude::*;
use crate::arith::floor_div;
use crate::arith::floor_div_wide;
use crate::arith::floor_mod;
use crate::arith::floor_mod_wide;
use crate::arith::lemma_floor_division;
use crate::arith::lemma_floor_division_unique;
use crate::arith::quotient_toward_zero;

verus! {

/// The number of nanoseconds in one second.
pub const NANOS_PER_SECOND: u32 = 1_000_000_000;

/// An interval of time between two timestamps.
///
/// The interval is a signed count of nanoseconds, held as whole seconds
/// rounded down and the nanoseconds left over, which are never negative:
/// minus two and a half seconds is `-3` seconds and `500_000_000`
/// nanoseconds. The view of an interval is that count.
#[derive(Clone, Copy, Debug, PartialEq, Eq, PartialOrd, Ord, Structural)]
pub struct TimeInterval {
    seconds: i64,
    nanos: u32,
}

impl View for TimeInterval {
    type V = int;

    closed spec fn view(&self) -> int {
        self.seconds as int * 1_000_000_000 + self.nanos as int
    }
}

impl TimeInterval {
    /// The nanoseconds are less than one second.
    #[verifier::type_invariant]
    pub closed spec fn wf(self) -> bool {
        self.nanos < NANOS_PER_SECOND
    }

    /// Whether the whole seconds of `n` nanoseconds fit the seconds field.
    pub open spec fn representable(n: int) -> bool {
        i64::MIN <= n / 1_000_000_000 <= i64::MAX
    }

    /// The interval of `n` nanoseconds.
    pub closed spec fn of_nanos(n: int) -> TimeInterval {
        TimeInterval { seconds: (n / 1_000_000_000) as i64, nanos: (n % 1_000_000_000) as u32 }
    }

    /// `of_nanos` builds a well-formed interval of the count it is given.
    pub proof fn lemma_of_nanos(n: int)
        requires
            Self::representable(n),
        ensures
            Self::of_nanos(n).wf(),
            Self::of_nanos(n)@ == n,
    {
        lemma_floor_division(n, 1_000_000_000);
    }

    /// The fields of a well-formed interval are the quotient and the
    /// remainder of its count by one second.
    proof fn lemma_fields(self)
        requires
            self.wf(),
        ensures
            self@ / 1_000_000_000 == self.seconds,
            self@ % 1_000_000_000 == self.nanos,
    {
        lemma_floor_division_unique(self@, 1_000_000_000, self.seconds as int, self.nanos as int);
    }

    /// A well-formed interval is the interval of its own count.
    pub proof fn lemma_canonical(self)
        requires
            self.wf(),
        ensures
            Self::representable(self@),
            self == Self::of_nanos(self@),
    {
        self.lemma_fields();
    }

    /// Two well-formed intervals of the same count are the same interval.
    pub proof fn lemma_view_injective(self, other: TimeInterval)
        requires
            self.wf(),
            other.wf(),
            self@ == other@,
        ensures
            self == other,
    {
        self.lemma_canonical();
        other.lemma_canonical();
    }

    /// Create a new [`TimeInterval`] from seconds and nanoseconds.
    ///
    /// Nanoseconds of a second or more are carried into the seconds.
    pub fn new(seconds: i64, nanos: u32) -> (r: Self)
        requires
            seconds + nanos / NANOS_PER_SECOND <= i64::MAX,
        ensures
            r.wf(),
            r@ == seconds * 1_000_000_000 + nanos,
    {
        let carry: u32 = nanos / NANOS_PER_SECOND;
        let rest: u32 = nanos % NANOS_PER_SECOND;
        Self { seconds: seconds + carry as i64, nanos: rest }
    }

    /// Create a new [`TimeInterval`] from a value in milliseconds.
    pub fn from_milliseconds(millis: i64) -> (r: Self)
        ensures
            r.wf(),
            r@ == millis * 1_000_000,
    {
        let seconds: i64 = floor_div(millis, 1_000);
        let rest: i64 = floor_mod(millis, 1_000);
        proof {
            lemma_floor_division(millis as int, 1_000);
        }
        Self { seconds, nanos: rest as u32 * 1_000_000 }
    }

    /// Create a new [`TimeInterval`] from a value in microseconds.
    pub fn from_microseconds(micros: i64) -> (r: Self)
        ensures
            r.wf(),
            r@ == micros * 1_000,
    {
        let seconds: i64 = floor_div(micros, 1_000_000);
        let rest: i64 = floor_mod(micros, 1_000_000);
        proof {
            lemma_floor_division(micros as int, 1_000_000);
        }
        Self { seconds, nanos: rest as u32 * 1_000 }
    }

    /// Create a new [`TimeInterval`] from a value in nanoseconds.
    pub fn from_nanoseconds(nanos: i128) -> (r: Self)
        requires
            Self::representable(nanos as int),
        ensures
            r.wf(),
            r@ == nanos,
            r == Self::of_nanos(nanos as int),
    {
        let seconds: i128 = floor_div_wide(nanos, 1_000_000_000);
        let rest: i128 = floor_mod_wide(nanos, 1_000_000_000);
        proof {
            lemma_floor_division(nanos as int, 1_000_000_000);
        }
        Self { seconds: seconds as i64, nanos: rest as u32 }
    }

    /// The number of seconds this interval represents.
    ///
    /// Note that the nanoseconds value is always positive, even if seconds is
    /// negative. For example, an interval representing -2.5 seconds will be
    /// represented as -3 seconds and 500,000,000 nanos.
    pub fn seconds(&self) -> (r: i64)
        ensures
            r == self@ / 1_000_000_000,
    {
        proof {
            use_type_invariant(self);
            self.lemma_fields();
        }
        self.seconds
    }

    /// The number of nanoseconds this interval represents.
    ///
    /// Note that the nanoseconds value is always positive, even if seconds is
    /// negative. For example, an interval representing -2.5 seconds will be
    /// represented as -3 seconds and 500,000,000 nanos.
    pub fn nanoseconds(&self) -> (r: u32)
        ensures
            r == self@ % 1_000_000_000,
            r < NANOS_PER_SECOND,
    {
        proof {
            use_type_invariant(self);
            self.lemma_fields();
        }
        self.nanos
    }

    /// The number of milliseconds this interval represents, rounded down.
    pub fn as_milliseconds(&self) -> (r: i64)
        requires
            i64::MIN <= self@ / 1_000_000 <= i64::MAX,
        ensures
            r == self@ / 1_000_000,
    {
        proof {
            use_type_invariant(self);
            lemma_scaled(self.seconds as int, self.nanos as int, 1_000, 1_000_000);
        }
        let wide: i128 = self.seconds as i128 * 1_000 + (self.nanos / 1_000_000) as i128;
        wide as i64
    }

    /// The number of microseconds this interval represents, rounded down.
    pub fn as_microseconds(&self) -> (r: i64)
        requires
            i64::MIN <= self@ / 1_000 <= i64::MAX,
        ensures
            r == self@ / 1_000,
    {
        proof {
            use_type_invariant(self);
            lemma_scaled(self.seconds as int, self.nanos as int, 1_000_000, 1_000);
        }
        let wide: i128 = self.seconds as i128 * 1_000_000 + (self.nanos / 1_000) as i128;
        wide as i64
    }

    /// The number of nanoseconds this interval represents.
    pub fn as_nanoseconds(&self) -> (r: i128)
        ensures
            r == self@,
            i64::MIN * 1_000_000_000 <= r < (i64::MAX + 1) * 1_000_000_000,
    {
        proof {
            use_type_invariant(self);
        }
        self.seconds as i128 * 1_000_000_000 + self.nanos as i128
    }
}

impl Default for TimeInterval {
    /// The empty interval.
    fn default() -> (r: Self)
        ensures
            r.wf(),
            r@ == 0,
    {
        Self { seconds: 0, nanos: 0 }
    }
}

impl core::ops::Mul<i128> for TimeInterval {
    type Output = TimeInterval;

    /// The interval taken `rhs` times.
    fn mul(self, rhs: i128) -> (r: TimeInterval)
        ensures
            r.wf(),
            r@ == self@ * rhs,
    {
        proof {
            use_type_invariant(self);
            self.lemma_canonical();
            lemma_product_bounds(self@, rhs as int);
        }
        Self::from_nanoseconds(self.as_nanoseconds() * rhs)
    }
}

impl vstd::std_specs::ops::MulSpecImpl<i128> for TimeInterval {
    open spec fn obeys_mul_spec() -> bool {
        true
    }

    open spec fn mul_req(self, rhs: i128) -> bool {
        TimeInterval::representable(self@ * rhs)
    }

    open spec fn mul_spec(self, rhs: i128) -> TimeInterval {
        TimeInterval::of_nanos(self@ * rhs)
    }
}

impl core::ops::Div<i128> for TimeInterval {
    type Output = TimeInterval;

    /// The `rhs`-th part of the interval, its nanoseconds rounded toward
    /// zero.
    fn div(self, rhs: i128) -> (r: TimeInterval)
        ensures
            r.wf(),
            r@ == quotient_toward_zero(self@, rhs as int),
    {
        proof {
            use_type_invariant(self);
            self.lemma_canonical();
            lemma_quotient_bounds(self@, rhs as int);
        }
        Self::from_nanoseconds(self.as_nanoseconds() / rhs)
    }
}

impl vstd::std_specs::ops::DivSpecImpl<i128> for TimeInterval {
    open spec fn obeys_div_spec() -> bool {
        true
    }

    open spec fn div_req(self, rhs: i128) -> bool {
        rhs != 0 && TimeInterval::representable(quotient_toward_zero(self@, rhs as int))
    }

    open spec fn div_spec(self, rhs: i128) -> TimeInterval {
        TimeInterval::of_nanos(quotient_toward_zero(self@, rhs as int))
    }
}

/// A product whose whole seconds fit 64 bits fits 128 bits.
proof fn lemma_product_bounds(a: int, b: int)
    requires
        TimeInterval::representable(a * b),
    ensures
        i128::MIN <= a * b <= i128::MAX,
{
    lemma_floor_division(a * b, 1_000_000_000);
}

/// A count whose whole seconds fit 64 bits, divided, fits 128 bits.
proof fn lemma_quotient_bounds(a: int, b: int)
    requires
        TimeInterval::representable(a),
        b != 0,
    ensures
        i128::MIN < a <= i128::MAX,
        i128::MIN < quotient_toward_zero(a, b) <= i128::MAX,
{
    lemma_floor_division(a, 1_000_000_000);
    if a >= 0 {
        vstd::arithmetic::div_mod::lemma_fundamental_div_mod(a, b);
        vstd::arithmetic::div_mod::lemma_mod_bound(a, if b > 0 { b } else { -b });
        assert(-a <= a / b <= a) by (nonlinear_arith)
            requires
                a == b * (a / b) + a % b,
                0 <= a % b,
                b > 0 ==> a % b < b,
                b < 0 ==> a % b < -b,
                a >= 0,
                b != 0,
        ;
    } else {
        let m = -a;
        vstd::arithmetic::div_mod::lemma_fundamental_div_mod(m, b);
        assert(-m <= m / b <= m) by (nonlinear_arith)
            requires
                m == b * (m / b) + m % b,
                0 <= m % b,
                b > 0 ==> m % b < b,
                b < 0 ==> m % b < -b,
                m >= 0,
                b != 0,
        ;
    }
}

/// With `unit * scale` nanoseconds to the second, the count of whole units
/// in `seconds` and `nanos` is `scale` per second and the units in `nanos`.
pub proof fn lemma_scaled(seconds: int, nanos: int, scale: int, unit: int)
    requires
        0 <= nanos < 1_000_000_000,
        scale > 0,
        unit > 0,
        scale * unit == 1_000_000_000,
    ensures
        (seconds * 1_000_000_000 + nanos) / unit == seconds * scale + nanos / unit,
        0 <= nanos / unit < scale,
{
    lemma_floor_division(nanos, unit);
    let q = nanos / unit;
    let r = nanos % unit;
    assert(q < scale) by (nonlinear_arith)
        requires
            nanos == unit * q + r,
            0 <= r < unit,
            nanos < 1_000_000_000,
            scale * unit == 1_000_000_000,
            unit > 0,
    ;
    assert(seconds * 1_000_000_000 + nanos == unit * (seconds * scale + q) + r)
        by (nonlinear_arith)
        requires
            nanos == unit * q + r,
            scale * unit == 1_000_000_000,
    ;
    lemma_floor_division_unique(seconds * 1_000_000_000 + nanos, unit, seconds * scale + q, r);
}

} // verus!
