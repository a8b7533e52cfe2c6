//! Fixed-point arithmetic: truncating division, integer square root, and
//! the clamping that keeps coordinates inside machine range.

use vstd::math::abs;
use vstd::prelude::*;

verus! {

/// Fixed-point steps per world unit.
pub const SCALE: i64 = 1_000_000;

/// Division that rounds toward zero, as the hardware `/` does; the rounding
/// used throughout the fixed-point geometry.
pub open spec fn tdiv(a: int, b: int) -> int
    recommends
        b != 0,
{
    if (a >= 0) == (b >= 0) {
        abs(a) as int / abs(b) as int
    } else {
        -(abs(a) as int / abs(b) as int)
    }
}

/// `v` pulled into the interval `[-lim, lim]`.
pub open spec fn sclamp(v: int, lim: int) -> int
    recommends
        lim > 0,
{
    if v > lim {
        lim
    } else if v < -lim {
        -lim
    } else {
        v
    }
}

/// `r` is the integer square root of `n`.
pub open spec fn is_isqrt(n: nat, r: nat) -> bool {
    r * r <= n < (r + 1) * (r + 1)
}

/// The integer square root: the largest `r` with `r * r <= n`.
pub open spec fn isqrt(n: nat) -> nat {
    choose|r: nat| is_isqrt(n, r)
}

pub proof fn lemma_isqrt_unique(n: nat, a: nat, b: nat)
    requires
        is_isqrt(n, a),
        is_isqrt(n, b),
    ensures
        a == b,
{
    assert(a <= b) by (nonlinear_arith)
        requires
            a * a <= n,
            n < (b + 1) * (b + 1),
    ;
    assert(b <= a) by (nonlinear_arith)
        requires
            b * b <= n,
            n < (a + 1) * (a + 1),
    ;
}

/// The magnitude of a truncating quotient never exceeds the magnitude of
/// the dividend, and shrinks with the divisor.
pub proof fn lemma_tdiv_mag(a: int, b: int)
    requires
        b >= 1,
    ensures
        abs(tdiv(a, b)) == abs(a) / (b as nat),
        abs(tdiv(a, b)) <= abs(a),
        abs(a) < b ==> tdiv(a, b) == 0,
{
    let q = abs(a) as int / b;
    vstd::arithmetic::div_mod::lemma_div_nonincreasing(abs(a) as int, b);
    vstd::arithmetic::div_mod::lemma_div_pos_is_pos(abs(a) as int, b);
    if abs(a) < b {
        vstd::arithmetic::div_mod::lemma_basic_div(abs(a) as int, b);
    }
}

/// A bound on the dividend gives a bound on the truncating quotient.
pub proof fn lemma_tdiv_le(a: int, b: int, c: int)
    requires
        b >= 1,
        c >= 0,
        abs(a) <= b * c,
    ensures
        abs(tdiv(a, b)) <= c,
{
    lemma_tdiv_mag(a, b);
    assert(abs(a) as int / b <= c) by (nonlinear_arith)
        requires
            b >= 1,
            c >= 0,
            abs(a) <= b * c,
    ;
}

/// A truncating quotient differs from the exact ratio by less than one:
/// the remainder `a - tdiv(a, d) * d` is smaller in magnitude than `d`,
/// and the rounding never increases the magnitude of the product.
pub proof fn lemma_tdiv_rem(a: int, d: int)
    requires
        d >= 1,
    ensures
        abs(a - tdiv(a, d) * d) <= d - 1,
        abs(tdiv(a, d)) * d <= abs(a),
{
    lemma_tdiv_mag(a, d);
    if a >= 0 {
        vstd::arithmetic::div_mod::lemma_fundamental_div_mod(a, d);
        vstd::arithmetic::div_mod::lemma_mod_division_less_than_divisor(a, d);
        vstd::arithmetic::div_mod::lemma_div_pos_is_pos(a, d);
        assert(tdiv(a, d) == a / d);
        assert(a - (a / d) * d == a % d) by (nonlinear_arith)
            requires
                a == d * (a / d) + (a % d),
        ;
    } else {
        let b = -a;
        vstd::arithmetic::div_mod::lemma_fundamental_div_mod(b, d);
        vstd::arithmetic::div_mod::lemma_mod_division_less_than_divisor(b, d);
        vstd::arithmetic::div_mod::lemma_div_pos_is_pos(b, d);
        assert(tdiv(a, d) == -(b / d));
        assert(b - (b / d) * d == b % d) by (nonlinear_arith)
            requires
                b == d * (b / d) + (b % d),
        ;
        assert(a - tdiv(a, d) * d == -(b % d)) by (nonlinear_arith)
            requires
                tdiv(a, d) == -(b / d),
                a == -b,
                b - (b / d) * d == b % d,
        ;
    }
}

/// Truncating division with a positive divisor; the body defers to the
/// checked division of the standard library.
pub fn div_i128(a: i128, b: i128) -> (r: i128)
    requires
        b > 0,
    ensures
        r == tdiv(a as int, b as int),
{
    proof {
        lemma_tdiv_mag(a as int, b as int);
    }
    let r = a.checked_div(b);
    proof {
        vstd::arithmetic::div_mod::lemma_div_nonincreasing(abs(a as int) as int, b as int);
    }
    r.unwrap()
}

/// Truncating division with any nonzero divisor.
pub fn div_i128_any(a: i128, b: i128) -> (r: i128)
    requires
        b != 0,
        a > i128::MIN,
        b > i128::MIN,
    ensures
        r == tdiv(a as int, b as int),
{
    if b > 0 {
        div_i128(a, b)
    } else {
        proof {
            lemma_tdiv_mag(a as int, -b as int);
        }
        -div_i128(a, -b)
    }
}

/// The product of two `i64` values, widened so it cannot overflow.
pub fn mul_i64(a: i64, b: i64) -> (r: i128)
    ensures
        r == (a as int) * (b as int),
{
    proof {
        assert(i128::MIN <= (a as int) * (b as int) <= i128::MAX) by (nonlinear_arith)
            requires
                i64::MIN <= a <= i64::MAX,
                i64::MIN <= b <= i64::MAX,
        ;
    }
    (a as i128) * (b as i128)
}

/// The product of two `i128` values whose magnitudes are known to fit.
pub fn mul_i128(a: i128, b: i128) -> (r: i128)
    requires
        abs(a as int) * abs(b as int) <= i128::MAX,
    ensures
        r == (a as int) * (b as int),
{
    proof {
        assert(i128::MIN <= (a as int) * (b as int) <= i128::MAX) by (nonlinear_arith)
            requires
                abs(a as int) * abs(b as int) <= i128::MAX,
        ;
    }
    a * b
}

/// `v` pulled into `[-lim, lim]`.
pub fn clamp_i64(v: i64, lim: i64) -> (r: i64)
    requires
        lim > 0,
    ensures
        r == sclamp(v as int, lim as int),
{
    if v > lim {
        lim
    } else if v < -lim {
        -lim
    } else {
        v
    }
}

/// Integer square root by bisection.
pub fn isqrt_u128(n: u128) -> (r: u64)
    ensures
        is_isqrt(n as nat, r as nat),
        r == isqrt(n as nat),
{
    let mut lo: u128 = 0;
    let mut hi: u128 = 0x1_0000_0000_0000_0000;
    proof {
        assert((hi as int) * (hi as int) > n as int) by (nonlinear_arith)
            requires
                hi == 0x1_0000_0000_0000_0000u128,
                n <= u128::MAX,
        ;
    }
    while hi - lo > 1
        invariant
            lo < hi <= 0x1_0000_0000_0000_0000u128,
            (lo as int) * (lo as int) <= n as int,
            (hi as int) * (hi as int) > n as int,
        decreases hi - lo,
    {
        let mid = lo + (hi - lo) / 2;
        proof {
            assert(lo < mid < hi);
            assert((mid as int) * (mid as int) <= u128::MAX) by (nonlinear_arith)
                requires
                    0 <= mid < 0x1_0000_0000_0000_0000u128,
            ;
        }
        if mid * mid <= n {
            lo = mid;
        } else {
            hi = mid;
        }
    }
    proof {
        assert(hi == lo + 1);
        assert(is_isqrt(n as nat, lo as nat));
        let w = choose|r: nat| is_isqrt(n as nat, r);
        lemma_isqrt_unique(n as nat, lo as nat, w);
    }
    lo as u64
}

/// The square root respects the ordering of squares: a value whose square
/// is at most `n` is at most `isqrt(n)`.
pub proof fn lemma_isqrt_ge(n: nat, x: nat)
    requires
        is_isqrt(n, isqrt(n)),
        x * x <= n,
    ensures
        x <= isqrt(n),
{
    let r = isqrt(n);
    assert(x <= r) by (nonlinear_arith)
        requires
            x * x <= n,
            n < (r + 1) * (r + 1),
    ;
}

} // verus!
