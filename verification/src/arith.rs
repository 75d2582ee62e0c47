//! Floor division on machine integers.
//!
//! Rust's `/` and `%` round toward zero; the encoding of instants and
//! intervals needs the quotient rounded down and a remainder that is never
//! negative. The functions here compute those and say so in the terms of
//! mathematical integers.

use vstd::prelude::*;

verus! {

/// For a positive divisor, the quotient lies between zero and the dividend,
/// the remainder lies below the divisor, and the two rebuild the dividend.
pub proof fn lemma_floor_division(a: int, b: int)
    requires
        b > 0,
    ensures
        a >= 0 ==> 0 <= a / b <= a,
        a < 0 ==> a <= a / b < 0,
        0 <= a % b < b,
        a == b * (a / b) + a % b,
{
    vstd::arithmetic::div_mod::lemma_fundamental_div_mod(a, b);
    vstd::arithmetic::div_mod::lemma_mod_bound(a, b);
    let q = a / b;
    assert(a >= 0 ==> 0 <= q <= a) by (nonlinear_arith)
        requires
            a == b * q + a % b,
            0 <= a % b < b,
            b > 0,
    ;
    assert(a < 0 ==> a <= q < 0) by (nonlinear_arith)
        requires
            a == b * q + a % b,
            0 <= a % b < b,
            b > 0,
    ;
}

/// A quotient and a remainder in range are the quotient and the remainder.
pub proof fn lemma_floor_division_unique(a: int, b: int, q: int, r: int)
    requires
        b > 0,
        0 <= r < b,
        a == b * q + r,
    ensures
        a / b == q,
        a % b == r,
{
    assert(b * q == q * b) by (nonlinear_arith);
    vstd::arithmetic::div_mod::lemma_fundamental_div_mod_converse(a, b, q, r);
}

/// What Rust's `/` and `%`, which round toward zero, give for a negative
/// dividend, in the terms of the quotient rounded down.
pub proof fn lemma_toward_zero(a: int, b: int)
    requires
        a < 0,
        b > 0,
    ensures
        (-a) % b == 0 ==> a / b == -((-a) / b) && a % b == 0,
        (-a) % b != 0 ==> a / b == -((-a) / b) - 1 && a % b == b - (-a) % b,
{
    let m = -a;
    lemma_floor_division(m, b);
    let q = m / b;
    let r = m % b;
    if r == 0 {
        assert(a == b * (-q) + 0) by (nonlinear_arith)
            requires
                -a == b * q + r,
                r == 0,
        ;
        lemma_floor_division_unique(a, b, -q, 0);
    } else {
        assert(a == b * (-q - 1) + (b - r)) by (nonlinear_arith)
            requires
                -a == b * q + r,
        ;
        lemma_floor_division_unique(a, b, -q - 1, b - r);
    }
}

/// `a / b` rounded down.
pub fn floor_div(a: i64, b: i64) -> (q: i64)
    requires
        b > 0,
    ensures
        q == a as int / b as int,
{
    proof {
        lemma_floor_division(a as int, b as int);
        if a < 0 {
            lemma_toward_zero(a as int, b as int);
        }
    }
    if a % b < 0 {
        a / b - 1
    } else {
        a / b
    }
}

/// The remainder that `floor_div` leaves.
pub fn floor_mod(a: i64, b: i64) -> (r: i64)
    requires
        b > 0,
    ensures
        r == a as int % b as int,
        0 <= r < b,
{
    proof {
        lemma_floor_division(a as int, b as int);
        if a < 0 {
            lemma_toward_zero(a as int, b as int);
        }
    }
    if a % b < 0 {
        a % b + b
    } else {
        a % b
    }
}

/// `a / b` rounded down, on 128 bits.
pub fn floor_div_wide(a: i128, b: i128) -> (q: i128)
    requires
        b > 0,
    ensures
        q == a as int / b as int,
{
    proof {
        lemma_floor_division(a as int, b as int);
        if a < 0 {
            lemma_toward_zero(a as int, b as int);
        }
    }
    if a % b < 0 {
        a / b - 1
    } else {
        a / b
    }
}

/// The remainder that `floor_div_wide` leaves.
pub fn floor_mod_wide(a: i128, b: i128) -> (r: i128)
    requires
        b > 0,
    ensures
        r == a as int % b as int,
        0 <= r < b,
{
    proof {
        lemma_floor_division(a as int, b as int);
        if a < 0 {
            lemma_toward_zero(a as int, b as int);
        }
    }
    if a % b < 0 {
        a % b + b
    } else {
        a % b
    }
}

/// The quotient of `a` by `b` rounded toward zero, as Rust's `/` gives it.
pub open spec fn quotient_toward_zero(a: int, b: int) -> int {
    if a >= 0 {
        a / b
    } else {
        -((-a) / b)
    }
}

} // verus!
