//! Two-dimensional fixed-point vectors and the speed limiter.
use vstd::prelude::*;
use crate::fixed::{ceil_sqrt, lemma_ceil_sqrt_exists, ceil_sqrt_u64, mul_div, trunc_div, SPEED_LIMIT};

verus! {

/// A vector whose components are thousandths of a world unit.
#[derive(Clone, Copy, Debug, PartialEq, Eq, Structural)]
pub struct Vec2 {
    pub x: i64,
    pub y: i64,
}

impl Vec2 {
    pub fn new(x: i64, y: i64) -> (r: Vec2)
        ensures
            r.x == x,
            r.y == y,
    {
        Vec2 { x, y }
    }

    pub fn zero() -> (r: Vec2)
        ensures
            r.x == 0,
            r.y == 0,
    {
        Vec2 { x: 0, y: 0 }
    }

    /// Squared length.
    pub open spec fn norm_sq(self) -> int {
        self.x * self.x + self.y * self.y
    }

    /// Both components lie in `[-limit, limit]`.
    pub open spec fn bounded(self, limit: int) -> bool {
        &&& -limit <= self.x <= limit
        &&& -limit <= self.y <= limit
    }
}

/// Component `c` of the vector `(x, y)` after it is cut down to length `max`
/// (scaled to length `max` where it is longer, unchanged otherwise).
pub open spec fn limited(x: int, y: int, c: int, max: int) -> int {
    if x * x + y * y > max * max {
        trunc_div(c * max, ceil_sqrt(x * x + y * y))
    } else {
        c
    }
}

proof fn lemma_trunc_div_abs(a: int, b: int)
    requires
        b > 0,
    ensures
        trunc_div(a, b) * trunc_div(a, b) * (b * b) <= a * a,
{
    let q = if a >= 0 { a / b } else { (-a) / b };
    let pa = if a >= 0 { a } else { -a };
    assert(0 <= q * b <= pa) by (nonlinear_arith)
        requires
            q == pa / b,
            pa >= 0,
            b > 0,
    ;
    assert(q * q * (b * b) <= pa * pa) by (nonlinear_arith)
        requires
            0 <= q * b <= pa,
    ;
    if a < 0 {
        assert(trunc_div(a, b) == -q);
        assert((-q) * (-q) == q * q) by (nonlinear_arith);
        assert((-a) * (-a) == a * a) by (nonlinear_arith);
    }
}

/// A vector longer than `max` comes out of the limiter no longer than `max`.
pub proof fn lemma_limited_norm(x: int, y: int, max: int)
    requires
        max > 0,
        x * x + y * y > max * max,
    ensures
        limited(x, y, x, max) * limited(x, y, x, max) + limited(x, y, y, max) * limited(
            x,
            y,
            y,
            max,
        ) <= max * max,
{
    let n = x * x + y * y;
    assert(n >= 0) by (nonlinear_arith)
        requires
            n == x * x + y * y,
    ;
    lemma_ceil_sqrt_exists(n);
    let len = ceil_sqrt(n);
    assert(len * len >= n);
    assert(len > 0) by (nonlinear_arith)
        requires
            len * len > max * max,
            len >= 0,
            max > 0,
    ;
    let rx = trunc_div(x * max, len);
    let ry = trunc_div(y * max, len);
    lemma_trunc_div_abs(x * max, len);
    lemma_trunc_div_abs(y * max, len);
    let l2 = len * len;
    let m2 = max * max;
    assert((x * max) * (x * max) + (y * max) * (y * max) == n * m2) by (nonlinear_arith)
        requires
            n == x * x + y * y,
            m2 == max * max,
    ;
    assert(n * m2 <= l2 * m2) by (nonlinear_arith)
        requires
            n <= l2,
            m2 >= 0,
    ;
    assert((rx * rx + ry * ry) * l2 == rx * rx * l2 + ry * ry * l2) by (nonlinear_arith);
    assert((rx * rx + ry * ry) * (len * len) <= (max * max) * (len * len));
    assert(rx * rx + ry * ry <= max * max) by (nonlinear_arith)
        requires
            (rx * rx + ry * ry) * (len * len) <= (max * max) * (len * len),
            len > 0,
    ;
}

proof fn lemma_square_bound(a: int, m: int)
    requires
        m > 0,
        a * a <= m * m,
    ensures
        -m <= a <= m,
{
    if a > m {
        assert(a * a > m * m) by (nonlinear_arith)
            requires
                a > m,
                m > 0,
        ;
    }
    if a < -m {
        assert(a * a > m * m) by (nonlinear_arith)
            requires
                a < -m,
                m > 0,
        ;
    }
}

/// Scales `v` down to length `max` (each component rounded toward zero)
/// where it is longer than `max`; a shorter vector is returned unchanged.
pub fn limit_speed(v: Vec2, max: i64) -> (r: Vec2)
    requires
        v.bounded(2 * SPEED_LIMIT),
        0 < max <= 10_000,
    ensures
        r.x == limited(v.x as int, v.y as int, v.x as int, max as int),
        r.y == limited(v.x as int, v.y as int, v.y as int, max as int),
        r.norm_sq() <= max * max,
        r.bounded(max as int),
{
    proof {
        assert(v.x * v.x <= 4_000_000_000_000_000_000) by (nonlinear_arith)
            requires
                -2_000_000_000 <= v.x <= 2_000_000_000,
        ;
        assert(v.y * v.y <= 4_000_000_000_000_000_000) by (nonlinear_arith)
            requires
                -2_000_000_000 <= v.y <= 2_000_000_000,
        ;
        assert(v.x * v.x >= 0 && v.y * v.y >= 0) by (nonlinear_arith);
        assert(0 < max * max <= 100_000_000) by (nonlinear_arith)
            requires
                0 < max <= 10_000,
        ;
    }
    let n: i64 = v.x * v.x + v.y * v.y;
    if n > max * max {
        let len: u64 = ceil_sqrt_u64(n as u64);
        proof {
            assert(len > 0) by (nonlinear_arith)
                requires
                    len * len >= n,
                    n > max * max,
                    len >= 0,
            ;
            lemma_limited_norm(v.x as int, v.y as int, max as int);
        }
        let r = Vec2 { x: mul_div(v.x, max, len as i64), y: mul_div(v.y, max, len as i64) };
        proof {
            assert(r.x * r.x <= max * max && r.y * r.y <= max * max) by (nonlinear_arith)
                requires
                    r.x * r.x + r.y * r.y <= max * max,
            ;
            lemma_square_bound(r.x as int, max as int);
            lemma_square_bound(r.y as int, max as int);
        }
        r
    } else {
        proof {
            assert(v.x * v.x <= max * max && v.y * v.y <= max * max) by (nonlinear_arith)
                requires
                    v.x * v.x + v.y * v.y <= max * max,
                    v.x * v.x >= 0,
                    v.y * v.y >= 0,
            ;
            lemma_square_bound(v.x as int, max as int);
            lemma_square_bound(v.y as int, max as int);
        }
        v
    }
}

} // verus!
