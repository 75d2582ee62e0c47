//! Duration literals, such as `1d12h30m` and `-2.5s`.
//!
//! A literal is an optional sign and then, each at most once and in this
//! order: days, hours, minutes and seconds. Each is a decimal number and the
//! letter of its unit, `d`, `h`, `m` or `s`; the seconds may have a decimal
//! point and up to nine digits after it.

use vstd::prelude::*;
use crate::interval::TimeInterval;
use crate::text::chars_of;
use crate::text::digits_end;
use crate::text::is_digit;
use crate::text::lemma_digits_end;
use crate::text::number;
use crate::text::read_number;

verus! {

/// What is wrong with a text that is no duration literal.
#[derive(Clone, Copy, Debug, PartialEq, Eq, Structural)]
pub enum Fault {
    /// A number or the letter of a unit is missing, or a character stands
    /// where neither can stand.
    Malformed,
    /// A unit follows a smaller one, or is more than all that stands before
    /// it: place only larger units before a unit.
    OutOfOrder,
    /// A unit is declared twice.
    Repeated,
    /// Fractional seconds are declared twice.
    RepeatedFraction,
    /// The fractional seconds have more than nine digits.
    TooPrecise,
    /// The duration does not fit in 64 bits of seconds.
    TooLarge,
}

/// Why a text is no duration literal, and where.
#[derive(Clone, Copy, Debug, PartialEq, Eq, Structural)]
pub struct LiteralError {
    /// What is wrong.
    pub fault: Fault,
    /// The position, in characters, at which the offending unit begins: its
    /// first digit, or the character that stands where a digit should.
    pub at: usize,
    /// The letter after the number of the offending unit, where the fault is
    /// with that letter or with the unit it names.
    pub unit: Option<char>,
}

impl LiteralError {
    /// The fault at position `at`, with no letter to name.
    pub open spec fn plain(fault: Fault, at: int) -> LiteralError {
        LiteralError { fault, at: at as usize, unit: None }
    }

    /// The fault of the unit with this letter that begins at position `at`.
    pub open spec fn of_unit(fault: Fault, at: int, unit: char) -> LiteralError {
        LiteralError { fault, at: at as usize, unit: Some(unit) }
    }
}

/// What has been read of a literal.
#[derive(Clone, Copy, Debug)]
pub struct Progress {
    /// The seconds read so far, without the sign.
    pub total: u64,
    /// The nanoseconds read after the decimal point.
    pub nanos: u32,
    pub days: bool,
    pub hours: bool,
    pub minutes: bool,
    pub seconds: bool,
    /// Whether fractional seconds have been declared.
    pub fraction: bool,
}

/// The most seconds that a literal can hold.
pub const SECONDS_LIMIT: u64 = 0x7fff_ffff_ffff_ffff;

/// Ten to the power of `n`, for `n` up to nine.
pub open spec fn power_of_ten(n: int) -> nat
    decreases n,
{
    if n <= 0 {
        1
    } else {
        10 * power_of_ten(n - 1)
    }
}

/// Whether the character is the letter of a unit.
pub open spec fn is_unit(unit: char) -> bool {
    unit == 'd' || unit == 'h' || unit == 'm' || unit == 's'
}

/// The seconds in one of the unit.
pub open spec fn weight(unit: char) -> nat {
    if unit == 'd' {
        86_400
    } else if unit == 'h' {
        3_600
    } else if unit == 'm' {
        60
    } else {
        1
    }
}

impl Progress {
    /// Nothing read yet.
    pub open spec fn start() -> Progress {
        Progress {
            total: 0,
            nanos: 0,
            days: false,
            hours: false,
            minutes: false,
            seconds: false,
            fraction: false,
        }
    }

    /// Whether the unit has been declared.
    pub open spec fn declared(self, unit: char) -> bool {
        if unit == 'd' {
            self.days
        } else if unit == 'h' {
            self.hours
        } else if unit == 'm' {
            self.minutes
        } else {
            self.seconds
        }
    }

    /// Whether any unit has been declared.
    pub open spec fn any_declared(self) -> bool {
        self.days || self.hours || self.minutes || self.seconds
    }

    /// Whether a unit smaller than this one has been declared.
    pub open spec fn smaller_declared(self, unit: char) -> bool {
        if unit == 'd' {
            self.hours || self.minutes || self.seconds
        } else if unit == 'h' {
            self.minutes || self.seconds
        } else if unit == 'm' {
            self.seconds
        } else {
            false
        }
    }

    /// The progress with the unit declared and its seconds added.
    pub open spec fn with(self, unit: char, seconds: nat) -> Progress {
        Progress {
            total: (self.total + seconds) as u64,
            days: self.days || unit == 'd',
            hours: self.hours || unit == 'h',
            minutes: self.minutes || unit == 'm',
            seconds: self.seconds || unit == 's',
            ..self
        }
    }

    /// The progress with fractional seconds declared.
    pub open spec fn with_fraction(self, nanos: nat) -> Progress {
        Progress { nanos: nanos as u32, fraction: true, ..self }
    }

    /// The seconds fit, and the nanoseconds are less than a second.
    pub open spec fn wf(self) -> bool {
        self.total <= SECONDS_LIMIT && self.nanos < 1_000_000_000
    }

    /// What reading `value` of the unit does: the rules of the order of
    /// units, then the progress with the unit added.
    pub open spec fn step(self, unit: char, value: nat) -> Result<Progress, Fault> {
        if !is_unit(unit) {
            Err(Fault::Malformed)
        } else if self.declared(unit) {
            Err(Fault::Repeated)
        } else if self.smaller_declared(unit) {
            Err(Fault::OutOfOrder)
        } else if self.any_declared() && value * weight(unit) > self.total {
            Err(Fault::OutOfOrder)
        } else if self.total + value * weight(unit) > SECONDS_LIMIT {
            Err(Fault::TooLarge)
        } else {
            Ok(self.with(unit, value * weight(unit)))
        }
    }
}

/// What reading the units from position `i` on makes of the progress.
///
/// A unit is digits and a letter. Where a decimal point follows the digits,
/// the unit is seconds: digits follow, nine at most, and then `s`; a second
/// decimal point, in the same number or for a second time in the literal,
/// declares fractional seconds twice.
pub open spec fn read_units(s: Seq<char>, i: int, progress: Progress) -> Result<
    Progress,
    LiteralError,
>
    decreases s.len() - i,
{
    let j = digits_end(s, i);
    if i < 0 || i >= s.len() {
        Ok(progress)
    } else if j <= i || j >= s.len() {
        Err(LiteralError::plain(Fault::Malformed, i))
    } else if s[j] == '.' {
        let k = digits_end(s, j + 1);
        if progress.fraction {
            Err(LiteralError::plain(Fault::RepeatedFraction, i))
        } else if k <= j + 1 {
            Err(LiteralError::plain(Fault::Malformed, i))
        } else if k < s.len() && s[k] == '.' {
            Err(LiteralError::plain(Fault::RepeatedFraction, i))
        } else if k - (j + 1) > 9 {
            Err(LiteralError::plain(Fault::TooPrecise, i))
        } else if k >= s.len() || s[k] != 's' {
            Err(LiteralError::plain(Fault::Malformed, i))
        } else {
            match progress.with_fraction(
                number(s, j + 1, k) * power_of_ten(9 - (k - (j + 1))),
            ).step('s', number(s, i, j)) {
                Err(fault) => Err(LiteralError::of_unit(fault, i, 's')),
                Ok(next) => read_units(s, k + 1, next),
            }
        }
    } else {
        match progress.step(s[j], number(s, i, j)) {
            Err(fault) => Err(LiteralError::of_unit(fault, i, s[j])),
            Ok(next) => read_units(s, j + 1, next),
        }
    }
}

/// The seconds and the nanoseconds of a duration read as `total` seconds
/// and `nanos` nanoseconds under a sign.
///
/// The sign goes to the seconds and the nanoseconds are added as they are;
/// where the seconds are then not positive and the nanoseconds not zero, one
/// second is borrowed and the nanoseconds are taken from a whole second.
pub open spec fn compose(negative: bool, total: int, nanos: int) -> (int, int) {
    let seconds = if negative {
        -total
    } else {
        total
    };
    if seconds <= 0 && nanos != 0 {
        (seconds - 1, 1_000_000_000 - nanos)
    } else {
        (seconds, nanos)
    }
}

/// Whether the literal opens with a sign.
pub open spec fn signed(s: Seq<char>) -> bool {
    s.len() > 0 && (s[0] == '+' || s[0] == '-')
}

/// The seconds and the nanoseconds that the literal stands for, or why it is
/// none.
pub open spec fn literal_value(s: Seq<char>) -> Result<(int, int), LiteralError> {
    match read_units(
        s,
        if signed(s) {
            1
        } else {
            0
        },
        Progress::start(),
    ) {
        Err(e) => Err(e),
        Ok(progress) => Ok(
            compose(signed(s) && s[0] == '-', progress.total as int, progress.nanos as int),
        ),
    }
}

/// Up to nine digits spell a number below ten to the power of their count.
pub proof fn lemma_number_bound(s: Seq<char>, i: int, j: int)
    requires
        0 <= i <= j <= s.len(),
        forall|k: int| i <= k < j ==> is_digit(#[trigger] s[k]),
    ensures
        number(s, i, j) < power_of_ten(j - i),
    decreases j - i,
{
    if j > i {
        lemma_number_bound(s, i, j - 1);
    }
}

/// A number beyond the limit is, to `step`, as good as the limit and one.
pub proof fn lemma_step_capped(progress: Progress, unit: char, value: nat)
    requires
        progress.wf(),
        value > SECONDS_LIMIT,
    ensures
        progress.step(unit, value) == progress.step(unit, (SECONDS_LIMIT + 1) as nat),
        progress.step(unit, value) is Err,
{
    let cap = (SECONDS_LIMIT + 1) as nat;
    assert(value * weight(unit) >= value) by (nonlinear_arith)
        requires
            weight(unit) >= 1,
    ;
    assert(cap * weight(unit) >= cap) by (nonlinear_arith)
        requires
            weight(unit) >= 1,
    ;
}

impl Progress {
    /// Reads `value` of the unit, where `value` is the number read or, for a
    /// number beyond the limit, the limit and one.
    fn advance(self, unit: char, value: u64) -> (r: Result<Progress, Fault>)
        requires
            self.wf(),
            value <= SECONDS_LIMIT + 1,
        ensures
            r == self.step(unit, value as nat),
            r matches Ok(next) ==> next.wf(),
    {
        let weight: u128 = if unit == 'd' {
            86_400
        } else if unit == 'h' {
            3_600
        } else if unit == 'm' {
            60
        } else if unit == 's' {
            1
        } else {
            return Err(Fault::Malformed);
        };
        let declared: bool = (unit == 'd' && self.days) || (unit == 'h' && self.hours) || (unit
            == 'm' && self.minutes) || (unit == 's' && self.seconds);
        let smaller: bool = (unit == 'd' && (self.hours || self.minutes || self.seconds)) || (unit
            == 'h' && (self.minutes || self.seconds)) || (unit == 'm' && self.seconds);
        let any: bool = self.days || self.hours || self.minutes || self.seconds;
        assert(value as u128 * weight <= 0x8000_0000_0000_0000 * 86_400) by (nonlinear_arith)
            requires
                value <= 0x8000_0000_0000_0000,
                weight <= 86_400,
        ;
        let added: u128 = value as u128 * weight;
        if declared {
            Err(Fault::Repeated)
        } else if smaller {
            Err(Fault::OutOfOrder)
        } else if any && added > self.total as u128 {
            Err(Fault::OutOfOrder)
        } else if self.total as u128 + added > SECONDS_LIMIT as u128 {
            Err(Fault::TooLarge)
        } else {
            Ok(
                Progress {
                    total: self.total + added as u64,
                    nanos: self.nanos,
                    days: self.days || unit == 'd',
                    hours: self.hours || unit == 'h',
                    minutes: self.minutes || unit == 'm',
                    seconds: self.seconds || unit == 's',
                    fraction: self.fraction,
                },
            )
        }
    }
}

/// The nanoseconds that `count` digits after the decimal point, spelling
/// `value`, stand for.
fn scale_fraction(value: u64, count: usize) -> (r: u32)
    requires
        1 <= count <= 9,
        value < power_of_ten(count as int),
    ensures
        r == value * power_of_ten(9 - count),
        r < 1_000_000_000,
{
    let mut scaled: u64 = value;
    let mut at: usize = count;
    proof {
        reveal_with_fuel(power_of_ten, 11);
        assert(value * power_of_ten(at - count) == value) by (nonlinear_arith)
            requires
                power_of_ten(at - count) == 1,
        ;
    }
    while at < 9
        invariant
            count <= at <= 9,
            scaled == value * power_of_ten(at - count),
            scaled < power_of_ten(at as int),
            power_of_ten(9) == 1_000_000_000,
        decreases 9 - at,
    {
        proof {
            reveal_with_fuel(power_of_ten, 11);
            assert(value * power_of_ten(at + 1 - count) == value * power_of_ten(at - count) * 10)
                by (nonlinear_arith)
                requires
                    power_of_ten(at + 1 - count) == 10 * power_of_ten(at - count),
            ;
        }
        scaled = scaled * 10;
        at += 1;
    }
    scaled as u32
}

/// Read a duration literal, such as `1d12h30m` or `-2.5s`.
///
/// The units stand in the order of days, hours, minutes and seconds, each at
/// most once, and none counts for more than all that stands before it. The
/// seconds may have up to nine digits after a decimal point. A sign before
/// the literal goes to the seconds; the nanoseconds are counted upward from
/// them, and where the seconds are not positive one second is borrowed for
/// the nanoseconds.
pub fn nanoseconds(literal: &str) -> (r: Result<TimeInterval, LiteralError>)
    ensures
        match literal_value(literal@) {
            Ok((seconds, nanos)) => r matches Ok(interval) && interval.wf() && interval@ == seconds
                * 1_000_000_000 + nanos,
            Err(e) => r == Err::<TimeInterval, LiteralError>(e),
        },
{
    let s: Vec<char> = chars_of(literal);
    let has_sign: bool = s.len() > 0 && (s[0] == '+' || s[0] == '-');
    let negative: bool = has_sign && s[0] == '-';
    let mut i: usize = if has_sign {
        1
    } else {
        0
    };
    let mut progress = Progress {
        total: 0,
        nanos: 0,
        days: false,
        hours: false,
        minutes: false,
        seconds: false,
        fraction: false,
    };
    let ghost whole = read_units(
        s@,
        if signed(s@) {
            1
        } else {
            0
        },
        Progress::start(),
    );
    while i < s.len()
        invariant
            i <= s.len(),
            s@ == literal@,
            progress.wf(),
            negative == (signed(s@) && s@[0] == '-'),
            literal_value(s@) == match whole {
                Err(e) => Err::<(int, int), LiteralError>(e),
                Ok(done) => Ok(
                    compose(signed(s@) && s@[0] == '-', done.total as int, done.nanos as int),
                ),
            },
            whole == read_units(s@, i as int, progress),
        decreases s.len() - i,
    {
        let (value, j) = read_number(&s, i);
        proof {
            lemma_digits_end(s@, i as int);
            if number(s@, i as int, j as int) > SECONDS_LIMIT {
                lemma_step_capped(progress, 's', number(s@, i as int, j as int));
                if j < s.len() {
                    lemma_step_capped(progress, s@[j as int], number(s@, i as int, j as int));
                }
            }
        }
        if j <= i || j >= s.len() {
            return Err(LiteralError { fault: Fault::Malformed, at: i, unit: None });
        }
        if s[j] == '.' {
            let (fraction, k) = read_number(&s, j + 1);
            proof {
                lemma_digits_end(s@, j + 1);
                if k - (j + 1) <= 9 {
                    lemma_number_bound(s@, j + 1, k as int);
                    reveal_with_fuel(power_of_ten, 11);
                }
            }
            if progress.fraction {
                return Err(LiteralError { fault: Fault::RepeatedFraction, at: i, unit: None });
            }
            if k <= j + 1 {
                return Err(LiteralError { fault: Fault::Malformed, at: i, unit: None });
            }
            if k < s.len() && s[k] == '.' {
                return Err(LiteralError { fault: Fault::RepeatedFraction, at: i, unit: None });
            }
            if k - (j + 1) > 9 {
                return Err(LiteralError { fault: Fault::TooPrecise, at: i, unit: None });
            }
            if k >= s.len() || s[k] != 's' {
                return Err(LiteralError { fault: Fault::Malformed, at: i, unit: None });
            }
            let nanos: u32 = scale_fraction(fraction, k - (j + 1));
            let marked = Progress {
                total: progress.total,
                nanos,
                days: progress.days,
                hours: progress.hours,
                minutes: progress.minutes,
                seconds: progress.seconds,
                fraction: true,
            };
            proof {
                if number(s@, i as int, j as int) > SECONDS_LIMIT {
                    lemma_step_capped(marked, 's', number(s@, i as int, j as int));
                }
            }
            match marked.advance('s', value) {
                Err(fault) => {
                    return Err(LiteralError { fault, at: i, unit: Some('s') });
                },
                Ok(next) => {
                    progress = next;
                },
            }
            i = k + 1;
        } else {
            match progress.advance(s[j], value) {
                Err(fault) => {
                    return Err(LiteralError { fault, at: i, unit: Some(s[j]) });
                },
                Ok(next) => {
                    progress = next;
                },
            }
            i = j + 1;
        }
    }
    let seconds: i64 = if negative {
        -(progress.total as i64)
    } else {
        progress.total as i64
    };
    if seconds <= 0 && progress.nanos != 0 {
        Ok(TimeInterval::new(seconds - 1, 1_000_000_000 - progress.nanos))
    } else {
        Ok(TimeInterval::new(seconds, progress.nanos))
    }
}

} // verus!
