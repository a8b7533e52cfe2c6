//! Fixed-point plane geometry: points, vectors and directed segments.
//!
//! A coordinate is an `i64` holding `SCALE` fixed-point steps per world
//! unit.  Lengths use the integer square root; normalisation and
//! projection round toward zero, and every method states its result
//! exactly in those terms.

use crate::arith::{
    is_isqrt, isqrt, lemma_isqrt_ge, lemma_tdiv_le, lemma_tdiv_mag, lemma_tdiv_rem, tdiv, SCALE,
};
use vstd::math::abs;
use vstd::prelude::*;

verus! {

/// Largest coordinate magnitude the segment operations accept.
pub const COORD_LIMIT: i64 = 20_000_000_000_000_000;

/// Largest component magnitude `len` and `unit` accept; twice
/// `COORD_LIMIT`, so a difference of two in-range points is in range.
pub const VEC_LIMIT: i64 = 40_000_000_000_000_000;

/// A position or displacement in the plane, in fixed-point steps.
#[derive(Clone, Copy, PartialEq, Eq, Structural, Debug)]
pub struct Point(pub i64, pub i64);

pub type Vector = Point;

/// The length of the vector `(x, y)`, rounded down.
pub open spec fn len_of(x: int, y: int) -> int {
    isqrt((x * x + y * y) as nat) as int
}

/// The unit vector along `(x, y)`, scaled by `SCALE` and rounded toward
/// zero; the zero vector stays zero.
pub open spec fn unit_of(x: int, y: int) -> (int, int) {
    if x == 0 && y == 0 {
        (0, 0)
    } else {
        (tdiv(x * SCALE, len_of(x, y)), tdiv(y * SCALE, len_of(x, y)))
    }
}

/// The square root promised by `isqrt` exists for every argument.
pub proof fn lemma_isqrt_exists(n: nat)
    ensures
        is_isqrt(n, isqrt(n)),
    decreases n,
{
    if n == 0 {
        assert(is_isqrt(0, 0)) by (nonlinear_arith);
    } else {
        lemma_isqrt_exists((n - 1) as nat);
        let r = isqrt((n - 1) as nat);
        if n < (r + 1) * (r + 1) {
            assert(is_isqrt(n, r));
        } else {
            assert(is_isqrt(n, r + 1)) by (nonlinear_arith)
                requires
                    r * r <= n - 1,
                    n - 1 < (r + 1) * (r + 1),
                    n >= (r + 1) * (r + 1),
            ;
        }
    }
}

/// Squares are monotone: the length bounds each component, and is at most
/// the sum of their magnitudes.
pub proof fn lemma_len_bounds(x: int, y: int)
    ensures
        len_of(x, y) >= abs(x),
        len_of(x, y) >= abs(y),
        len_of(x, y) <= abs(x) + abs(y),
        (x != 0 || y != 0) ==> len_of(x, y) >= 1,
{
    let n = (x * x + y * y) as nat;
    assert(x * x + y * y >= x * x >= 0 && x * x + y * y >= y * y >= 0) by (nonlinear_arith);
    lemma_isqrt_exists(n);
    assert(abs(x) * abs(x) == x * x && abs(y) * abs(y) == y * y) by (nonlinear_arith);
    lemma_isqrt_ge(n, abs(x));
    lemma_isqrt_ge(n, abs(y));
    let s = abs(x) + abs(y);
    assert(n < (s + 1) * (s + 1)) by (nonlinear_arith)
        requires
            n == x * x + y * y,
            s == abs(x) + abs(y),
    ;
    assert(isqrt(n) <= s) by {
        if isqrt(n) > s {
            assert(isqrt(n) * isqrt(n) >= (s + 1) * (s + 1)) by (nonlinear_arith)
                requires
                    isqrt(n) >= s + 1,
                    s >= 0,
            ;
        }
    }
    if x != 0 || y != 0 {
        assert(n >= 1) by (nonlinear_arith)
            requires
                n == x * x + y * y,
                x != 0 || y != 0,
        ;
        if isqrt(n) == 0 {
            assert(n < 1);
        }
    }
}

/// Components of a scaled unit vector never exceed `SCALE`.
pub proof fn lemma_unit_bounds(x: int, y: int)
    ensures
        abs(unit_of(x, y).0) <= SCALE,
        abs(unit_of(x, y).1) <= SCALE,
{
    if x == 0 && y == 0 {
    } else {
        let l = len_of(x, y);
        lemma_len_bounds(x, y);
        assert(abs(x * SCALE) <= l * SCALE && abs(y * SCALE) <= l * SCALE) by (nonlinear_arith)
            requires
                abs(x) <= l,
                abs(y) <= l,
                SCALE > 0,
        ;
        lemma_tdiv_le(x * SCALE, l, SCALE as int);
        lemma_tdiv_le(y * SCALE, l, SCALE as int);
    }
}

/// A scaled unit vector of a vector at least one unit long is within a
/// few rounding steps of length `SCALE`: its squared norm lies between
/// `SCALE^2 - 4 SCALE` and `SCALE^2 + 6 SCALE + 2`.
pub proof fn lemma_unit_norm_sq(x: int, y: int)
    requires
        len_of(x, y) >= SCALE,
    ensures
        ({
            let u = unit_of(x, y);
            SCALE * SCALE - 4 * SCALE <= u.0 * u.0 + u.1 * u.1 && u.0 * u.0 + u.1 * u.1 <= SCALE
                * SCALE + 6 * SCALE + 2
        }),
{
    let n = (x * x + y * y) as nat;
    let a2 = x * x + y * y;
    let l = len_of(x, y);
    lemma_len_bounds(x, y);
    assert(x * x + y * y >= x * x >= 0 && x * x + y * y >= y * y >= 0) by (nonlinear_arith);
    lemma_isqrt_exists(n);
    if x == 0 && y == 0 {
        assert(isqrt(0) * isqrt(0) <= 0 && 0 < (isqrt(0) + 1) * (isqrt(0) + 1));
        assert(isqrt(0) == 0) by (nonlinear_arith)
            requires
                isqrt(0) * isqrt(0) <= 0,
        ;
        assert(false);
    }
    let s = SCALE as int;
    // The stored length brackets the true squared length.
    assert(l * l <= a2 && a2 <= l * l + 2 * l) by (nonlinear_arith)
        requires
            l == isqrt(n),
            isqrt(n) * isqrt(n) <= n,
            n < (isqrt(n) + 1) * (isqrt(n) + 1),
            n == a2,
    ;
    let qx = tdiv(x * s, l);
    let qy = tdiv(y * s, l);
    lemma_tdiv_rem(x * s, l);
    lemma_tdiv_rem(y * s, l);
    let xs = x * s;
    let ys = y * s;
    let rx = xs - qx * l;
    let ry = ys - qy * l;
    let sum_sq = qx * qx + qy * qy;
    // The exact algebraic identity behind the rounding error, built up
    // one square at a time.
    let qxl = qx * l;
    let qyl = qy * l;
    assert(qxl * qxl == xs * xs - 2 * (xs * rx) + rx * rx) by (nonlinear_arith)
        requires
            qxl == xs - rx,
    ;
    assert(qyl * qyl == ys * ys - 2 * (ys * ry) + ry * ry) by (nonlinear_arith)
        requires
            qyl == ys - ry,
    ;
    assert(qxl * qxl == (qx * qx) * (l * l) && qyl * qyl == (qy * qy) * (l * l))
        by (nonlinear_arith)
        requires
            qxl == qx * l,
            qyl == qy * l,
    ;
    assert(sum_sq * (l * l) == (qx * qx) * (l * l) + (qy * qy) * (l * l)) by (nonlinear_arith)
        requires
            sum_sq == qx * qx + qy * qy,
    ;
    assert(sum_sq * (l * l) == (xs * xs + ys * ys) - 2 * (xs * rx + ys * ry) + (rx * rx + ry
        * ry));
    assert(xs * xs + ys * ys == a2 * (s * s)) by (nonlinear_arith)
        requires
            xs == x * s,
            ys == y * s,
            a2 == x * x + y * y,
    ;
    // Remainder and cross terms are small against l * l.
    assert(abs(xs * rx) <= s * (l * l) && abs(ys * ry) <= s * (l * l) && 0 <= rx * rx <= l * l
        && 0 <= ry * ry <= l * l) by (nonlinear_arith)
        requires
            abs(rx) <= l - 1,
            abs(ry) <= l - 1,
            abs(x) <= l,
            abs(y) <= l,
            xs == x * s,
            ys == y * s,
            l >= 1,
            s >= 1,
    ;
    assert((l * l) * (s * s) <= a2 * (s * s) <= (l * l) * (s * s) + (2 * l) * (s * s))
        by (nonlinear_arith)
        requires
            l * l <= a2 <= l * l + 2 * l,
            s >= 1,
    ;
    // Assemble both bounds linearly over those product terms.
    assert(sum_sq * (l * l) >= (l * l) * (s * s) - 4 * (s * (l * l)));
    assert(sum_sq * (l * l) <= (l * l) * (s * s) + (2 * l) * (s * s) + 4 * (s * (l * l)) + 2 * (l
        * l));
    // Divide out the positive l * l; the 2 l s^2 slack folds into 2 l^2 s.
    assert(sum_sq >= s * s - 4 * s) by (nonlinear_arith)
        requires
            sum_sq * (l * l) >= (l * l) * (s * s) - 4 * (s * (l * l)),
            l >= 1,
    ;
    assert(sum_sq <= s * s + 6 * s + 2) by (nonlinear_arith)
        requires
            sum_sq * (l * l) <= (l * l) * (s * s) + (2 * l) * (s * s) + 4 * (s * (l * l)) + 2 * (l
                * l),
            l >= s,
            s >= 1,
    ;
}

impl Point {
    /// The dot product, exact in fixed-point steps squared.
    pub fn dot(self, rhs: Point) -> (r: i128)
        requires
            abs(self.0 as int) <= VEC_LIMIT,
            abs(self.1 as int) <= VEC_LIMIT,
        ensures
            r == self.0 * rhs.0 + self.1 * rhs.1,
    {
        let a = crate::arith::mul_i64(self.0, rhs.0);
        let b = crate::arith::mul_i64(self.1, rhs.1);
        proof {
            assert(a + b <= i128::MAX && a + b >= i128::MIN) by (nonlinear_arith)
                requires
                    a == self.0 * rhs.0,
                    b == self.1 * rhs.1,
                    abs(self.0 as int) <= VEC_LIMIT,
                    abs(self.1 as int) <= VEC_LIMIT,
                    VEC_LIMIT == 40_000_000_000_000_000i64,
                    i64::MIN <= rhs.0 <= i64::MAX,
                    i64::MIN <= rhs.1 <= i64::MAX,
            ;
        }
        a + b
    }

    /// Componentwise ratio of two vectors, scaled by `SCALE`.
    pub fn dot_div(self, rhs: Point) -> (r: Point)
        requires
            rhs.0 != 0,
            rhs.1 != 0,
            abs(tdiv(self.0 * SCALE, rhs.0 as int)) <= i64::MAX,
            abs(tdiv(self.1 * SCALE, rhs.1 as int)) <= i64::MAX,
        ensures
            r.0 == tdiv(self.0 * SCALE, rhs.0 as int),
            r.1 == tdiv(self.1 * SCALE, rhs.1 as int),
    {
        let x = crate::arith::div_i128_any(crate::arith::mul_i64(self.0, SCALE), rhs.0 as i128);
        let y = crate::arith::div_i128_any(crate::arith::mul_i64(self.1, SCALE), rhs.1 as i128);
        Point(x as i64, y as i64)
    }

    pub fn zero() -> (r: Point)
        ensures
            r == (Point(0, 0)),
    {
        Point(0, 0)
    }

    /// The vector's length, rounded down.
    pub fn len(self) -> (r: i64)
        requires
            abs(self.0 as int) <= VEC_LIMIT,
            abs(self.1 as int) <= VEC_LIMIT,
        ensures
            r == len_of(self.0 as int, self.1 as int),
            0 <= r <= 2 * VEC_LIMIT,
    {
        let xx = crate::arith::mul_i64(self.0, self.0);
        let yy = crate::arith::mul_i64(self.1, self.1);
        proof {
            assert(xx >= 0 && yy >= 0 && xx + yy <= i128::MAX) by (nonlinear_arith)
                requires
                    xx == self.0 * self.0,
                    yy == self.1 * self.1,
                    abs(self.0 as int) <= VEC_LIMIT,
                    abs(self.1 as int) <= VEC_LIMIT,
            ;
            lemma_len_bounds(self.0 as int, self.1 as int);
        }
        let n = (xx + yy) as u128;
        let r = crate::arith::isqrt_u128(n);
        r as i64
    }

    /// 90-degree clockwise rotation.
    pub fn rot90(self) -> (r: Point)
        requires
            self.0 > i64::MIN,
        ensures
            r.0 == self.1,
            r.1 == -self.0,
    {
        Point(self.1, -self.0)
    }

    /// The unit vector along `self`, scaled by `SCALE`; zero stays zero.
    pub fn unit(self) -> (r: Point)
        requires
            abs(self.0 as int) <= VEC_LIMIT,
            abs(self.1 as int) <= VEC_LIMIT,
        ensures
            (r.0 as int, r.1 as int) == unit_of(self.0 as int, self.1 as int),
            abs(r.0 as int) <= SCALE,
            abs(r.1 as int) <= SCALE,
    {
        proof {
            lemma_unit_bounds(self.0 as int, self.1 as int);
        }
        if self.0 == 0 && self.1 == 0 {
            Point(0, 0)
        } else {
            let l = self.len();
            proof {
                lemma_len_bounds(self.0 as int, self.1 as int);
            }
            let x = crate::arith::div_i128(crate::arith::mul_i64(self.0, SCALE), l as i128);
            let y = crate::arith::div_i128(crate::arith::mul_i64(self.1, SCALE), l as i128);
            Point(x as i64, y as i64)
        }
    }

    /// Sine of the vector's angle, scaled by `SCALE`.
    pub fn sin(self) -> (r: i64)
        requires
            abs(self.0 as int) <= VEC_LIMIT,
            abs(self.1 as int) <= VEC_LIMIT,
            self.0 != 0 || self.1 != 0,
        ensures
            r == tdiv(self.1 * SCALE, len_of(self.0 as int, self.1 as int)),
            abs(r as int) <= SCALE,
    {
        proof {
            lemma_unit_bounds(self.0 as int, self.1 as int);
            lemma_len_bounds(self.0 as int, self.1 as int);
        }
        let l = self.len();
        let y = crate::arith::div_i128(crate::arith::mul_i64(self.1, SCALE), l as i128);
        y as i64
    }

    /// Cosine of the vector's angle, scaled by `SCALE`.
    pub fn cos(self) -> (r: i64)
        requires
            abs(self.0 as int) <= VEC_LIMIT,
            abs(self.1 as int) <= VEC_LIMIT,
            self.0 != 0 || self.1 != 0,
        ensures
            r == tdiv(self.0 * SCALE, len_of(self.0 as int, self.1 as int)),
            abs(r as int) <= SCALE,
    {
        proof {
            lemma_unit_bounds(self.0 as int, self.1 as int);
            lemma_len_bounds(self.0 as int, self.1 as int);
        }
        let l = self.len();
        let x = crate::arith::div_i128(crate::arith::mul_i64(self.0, SCALE), l as i128);
        x as i64
    }

    /// Componentwise sum.
    pub fn plus(self, rhs: Point) -> (r: Point)
        requires
            i64::MIN <= self.0 + rhs.0 <= i64::MAX,
            i64::MIN <= self.1 + rhs.1 <= i64::MAX,
        ensures
            r.0 == self.0 + rhs.0,
            r.1 == self.1 + rhs.1,
    {
        Point(self.0 + rhs.0, self.1 + rhs.1)
    }

    /// Componentwise difference.
    pub fn minus(self, rhs: Point) -> (r: Point)
        requires
            i64::MIN <= self.0 - rhs.0 <= i64::MAX,
            i64::MIN <= self.1 - rhs.1 <= i64::MAX,
        ensures
            r.0 == self.0 - rhs.0,
            r.1 == self.1 - rhs.1,
    {
        Point(self.0 - rhs.0, self.1 - rhs.1)
    }

    /// Multiplication by a plain integer scalar.
    pub fn scaled(self, k: i64) -> (r: Point)
        requires
            i64::MIN <= self.0 * k <= i64::MAX,
            i64::MIN <= self.1 * k <= i64::MAX,
        ensures
            r.0 == self.0 * k,
            r.1 == self.1 * k,
    {
        let x = crate::arith::mul_i64(self.0, k);
        let y = crate::arith::mul_i64(self.1, k);
        Point(x as i64, y as i64)
    }

    /// Multiplication by one half, rounding toward zero.
    pub fn half(self) -> (r: Point)
        ensures
            r.0 == tdiv(self.0 as int, 2),
            r.1 == tdiv(self.1 as int, 2),
    {
        proof {
            lemma_tdiv_mag(self.0 as int, 2);
            lemma_tdiv_mag(self.1 as int, 2);
        }
        let x = crate::arith::div_i128(self.0 as i128, 2);
        let y = crate::arith::div_i128(self.1 as i128, 2);
        Point(x as i64, y as i64)
    }

    /// Multiplication by a fixed-point scalar (`f` is `SCALE` times the
    /// real factor), rounding toward zero.
    pub fn mulfix(self, f: i64) -> (r: Point)
        requires
            abs(self.0 as int) <= VEC_LIMIT,
            abs(self.1 as int) <= VEC_LIMIT,
            abs(f as int) <= 100 * SCALE,
        ensures
            r.0 == tdiv(self.0 * f, SCALE as int),
            r.1 == tdiv(self.1 * f, SCALE as int),
    {
        proof {
            assert(abs(self.0 * f) <= SCALE * (100 * VEC_LIMIT) && abs(self.1 * f) <= SCALE * (100
                * VEC_LIMIT)) by (nonlinear_arith)
                requires
                    abs(self.0 as int) <= VEC_LIMIT,
                    abs(self.1 as int) <= VEC_LIMIT,
                    abs(f as int) <= 100 * SCALE,
                    SCALE > 0,
                    VEC_LIMIT > 0,
            ;
            lemma_tdiv_le(self.0 * f, SCALE as int, 100 * VEC_LIMIT as int);
            lemma_tdiv_le(self.1 * f, SCALE as int, 100 * VEC_LIMIT as int);
        }
        let x = crate::arith::div_i128(crate::arith::mul_i64(self.0, f), SCALE as i128);
        let y = crate::arith::div_i128(crate::arith::mul_i64(self.1, f), SCALE as i128);
        Point(x as i64, y as i64)
    }
}

/// A directed segment from `l.0` to `l.1`.
#[derive(Clone, Copy, PartialEq, Eq, Structural, Debug)]
pub struct Line(pub Point, pub Point);

/// The orthogonal projection of the point `(px, py)` onto the infinite
/// extension of `l`, in the fixed-point rounding the executable code uses.
pub open spec fn proj_of_i(l: Line, px: int, py: int) -> (int, int) {
    let d = unit_of(l.1.0 - l.0.0, l.1.1 - l.0.1);
    let t = (px - l.0.0) * d.0 + (py - l.0.1) * d.1;
    (l.0.0 + tdiv(d.0 * t, SCALE * SCALE), l.0.1 + tdiv(d.1 * t, SCALE * SCALE))
}

/// The orthogonal projection of `p` onto the infinite extension of `l`.
pub open spec fn proj_of(l: Line, p: Point) -> (int, int) {
    proj_of_i(l, p.0 as int, p.1 as int)
}

/// Whether the exact ratio `n / d` lies in the closed unit interval; a
/// zero divisor never does.
pub open spec fn in_unit_ratio(n: int, d: int) -> bool {
    if d > 0 {
        0 <= n <= d
    } else if d < 0 {
        d <= n <= 0
    } else {
        false
    }
}

/// Overlap test used for colinear segments: either endpoint of `b`,
/// measured from `a`'s start against the x component of `a`'s endpoint,
/// lands in the unit interval.
pub open spec fn colinear_overlap(a: Line, b: Line) -> bool {
    in_unit_ratio(b.0.0 - a.0.0, a.1.0 as int) || in_unit_ratio(b.1.0 - a.0.0, a.1.0 as int)
}

/// Segment intersection by the two parametric ratios `t` and `u`; both
/// must lie in the unit interval, and a degenerate pair of determinants
/// falls back to the colinear overlap test.
pub open spec fn seg_intersects(a: Line, b: Line) -> bool {
    let tn = (a.0.0 - b.0.0) * (b.0.1 - b.1.1) - (a.0.1 - b.0.1) * (b.0.0 - b.1.0);
    let td = (a.0.0 - a.1.0) * (b.0.1 - b.1.1) - (a.0.1 - a.1.1) * (b.0.0 - b.1.0);
    if td == 0 && tn == 0 {
        colinear_overlap(a, b)
    } else {
        let un = (a.1.0 - a.0.0) * (a.0.1 - b.0.1) - (a.1.1 - a.0.1) * (a.0.0 - b.0.0);
        in_unit_ratio(tn, td) && in_unit_ratio(un, td)
    }
}

/// All four coordinates are small enough for the segment operations.
pub open spec fn line_in_range(l: Line) -> bool {
    abs(l.0.0 as int) <= COORD_LIMIT && abs(l.0.1 as int) <= COORD_LIMIT && abs(l.1.0 as int)
        <= COORD_LIMIT && abs(l.1.1 as int) <= COORD_LIMIT
}

/// `a * b - c * d`, widened so it cannot overflow.
fn det(a: i64, b: i64, c: i64, d: i64) -> (r: i128)
    requires
        abs(a as int) <= VEC_LIMIT,
        abs(b as int) <= VEC_LIMIT,
        abs(c as int) <= VEC_LIMIT,
        abs(d as int) <= VEC_LIMIT,
    ensures
        r == a * b - c * d,
{
    let x = crate::arith::mul_i64(a, b);
    let y = crate::arith::mul_i64(c, d);
    proof {
        assert(i128::MIN <= x - y <= i128::MAX) by (nonlinear_arith)
            requires
                x == a * b,
                y == c * d,
                abs(a as int) <= VEC_LIMIT,
                abs(b as int) <= VEC_LIMIT,
                abs(c as int) <= VEC_LIMIT,
                abs(d as int) <= VEC_LIMIT,
                VEC_LIMIT == 40_000_000_000_000_000i64,
        ;
    }
    x - y
}

/// Whether `n / d` lies in the closed unit interval.
fn ratio_in_unit(n: i128, d: i128) -> (r: bool)
    ensures
        r == in_unit_ratio(n as int, d as int),
{
    if d > 0 {
        0 <= n && n <= d
    } else if d < 0 {
        d <= n && n <= 0
    } else {
        false
    }
}

impl Line {
    /// The segment's length, rounded down.
    pub fn len(self) -> (r: i64)
        requires
            line_in_range(self),
        ensures
            r == len_of(self.1.0 - self.0.0, self.1.1 - self.0.1),
            0 <= r <= 2 * VEC_LIMIT,
    {
        self.1.minus(self.0).len()
    }

    /// The segment's midpoint, each component rounded toward zero.
    pub fn center(self) -> (r: Point)
        requires
            line_in_range(self),
        ensures
            r.0 == tdiv(self.0.0 + self.1.0, 2),
            r.1 == tdiv(self.0.1 + self.1.1, 2),
    {
        self.0.plus(self.1).half()
    }

    /// The unit direction from start to end, scaled by `SCALE`.
    pub fn direction(self) -> (r: Vector)
        requires
            line_in_range(self),
        ensures
            (r.0 as int, r.1 as int) == unit_of(self.1.0 - self.0.0, self.1.1 - self.0.1),
            abs(r.0 as int) <= SCALE,
            abs(r.1 as int) <= SCALE,
    {
        self.1.minus(self.0).unit()
    }

    /// The orthogonal projection of `point` onto the segment's infinite
    /// extension.
    pub fn projection(self, point: Point) -> (r: Point)
        requires
            line_in_range(self),
            abs(point.0 as int) <= COORD_LIMIT,
            abs(point.1 as int) <= COORD_LIMIT,
        ensures
            (r.0 as int, r.1 as int) == proj_of(self, point),
            abs(r.0 as int) <= 6 * COORD_LIMIT,
            abs(r.1 as int) <= 6 * COORD_LIMIT,
    {
        let direction = self.direction();
        let rel = point.minus(self.0);
        let t = rel.dot(direction);
        proof {
            assert(abs(t as int) <= 2 * (2 * COORD_LIMIT) * SCALE) by (nonlinear_arith)
                requires
                    t == rel.0 * direction.0 + rel.1 * direction.1,
                    abs(rel.0 as int) <= 2 * COORD_LIMIT,
                    abs(rel.1 as int) <= 2 * COORD_LIMIT,
                    abs(direction.0 as int) <= SCALE,
                    abs(direction.1 as int) <= SCALE,
                    SCALE > 0,
                    COORD_LIMIT > 0,
            ;
            assert(abs(direction.0 as int) * abs(t as int) <= i128::MAX && abs(direction.1 as int)
                * abs(t as int) <= i128::MAX && abs(direction.0 * t) <= (SCALE * SCALE) * (4
                * COORD_LIMIT) && abs(direction.1 * t) <= (SCALE * SCALE) * (4 * COORD_LIMIT))
                by (nonlinear_arith)
                requires
                    abs(t as int) <= 2 * (2 * COORD_LIMIT) * SCALE,
                    abs(direction.0 as int) <= SCALE,
                    abs(direction.1 as int) <= SCALE,
                    SCALE == 1_000_000i64,
                    COORD_LIMIT == 20_000_000_000_000_000i64,
            ;
            lemma_tdiv_le(direction.0 * t, SCALE * SCALE, 4 * COORD_LIMIT as int);
            lemma_tdiv_le(direction.1 * t, SCALE * SCALE, 4 * COORD_LIMIT as int);
        }
        let ox = crate::arith::div_i128(
            crate::arith::mul_i128(direction.0 as i128, t),
            (SCALE as i128) * (SCALE as i128),
        );
        let oy = crate::arith::div_i128(
            crate::arith::mul_i128(direction.1 as i128, t),
            (SCALE as i128) * (SCALE as i128),
        );
        Point((ox as i64) + self.0.0, (oy as i64) + self.0.1)
    }

    /// Whether the two segments intersect, including the colinear overlap
    /// fallback.
    pub fn intersects(self, rhs: Line) -> (r: bool)
        requires
            line_in_range(self),
            line_in_range(rhs),
        ensures
            r == seg_intersects(self, rhs),
    {
        let t_dividend = det(
            self.0.0 - rhs.0.0,
            rhs.0.1 - rhs.1.1,
            self.0.1 - rhs.0.1,
            rhs.0.0 - rhs.1.0,
        );
        let t_divisor = det(
            self.0.0 - self.1.0,
            rhs.0.1 - rhs.1.1,
            self.0.1 - self.1.1,
            rhs.0.0 - rhs.1.0,
        );

        if t_divisor == 0 && t_dividend == 0 {
            return self.colinear_intersect(rhs);
        }
        let u_dividend = det(
            self.1.0 - self.0.0,
            self.0.1 - rhs.0.1,
            self.1.1 - self.0.1,
            self.0.0 - rhs.0.0,
        );

        ratio_in_unit(t_dividend, t_divisor) && ratio_in_unit(u_dividend, t_divisor)
    }

    /// The segment translated by `rhs`.
    pub fn shift(self, rhs: Point) -> (r: Line)
        requires
            line_in_range(self),
            abs(rhs.0 as int) <= COORD_LIMIT,
            abs(rhs.1 as int) <= COORD_LIMIT,
        ensures
            r.0.0 == self.0.0 + rhs.0,
            r.0.1 == self.0.1 + rhs.1,
            r.1.0 == self.1.0 + rhs.0,
            r.1.1 == self.1.1 + rhs.1,
    {
        Line(self.0.plus(rhs), self.1.plus(rhs))
    }

    /// Overlap test for segments already known to be colinear.
    fn colinear_intersect(self, rhs: Line) -> (r: bool)
        requires
            line_in_range(self),
            line_in_range(rhs),
        ensures
            r == colinear_overlap(self, rhs),
    {
        let t0 = ratio_in_unit((rhs.0.0 - self.0.0) as i128, self.1.0 as i128);
        let t1 = ratio_in_unit((rhs.1.0 - self.0.0) as i128, self.1.0 as i128);
        t0 || t1
    }
}

} // verus!
