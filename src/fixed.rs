//! Fixed-point arithmetic for the playfield: lengths, speeds and angles are
//! held as whole thousandths of a world unit or of a degree.
use vstd::prelude::*;

verus! {

/// Number of fixed-point steps in one world unit (or one degree).
pub const SCALE: i64 = 1000;

/// Largest magnitude of a velocity or impulse component accepted by the
/// integrator, so that squared lengths fit in 64 bits.
pub const SPEED_LIMIT: i64 = 1_000_000_000;

/// Largest magnitude of a coordinate or an angle accepted by the systems.
pub const COORD_LIMIT: i64 = 1_000_000_000_000_000_000;

/// Quotient rounded toward zero, as integer division on machine integers.
pub open spec fn trunc_div(a: int, b: int) -> int {
    if a >= 0 {
        a / b
    } else {
        -((-a) / b)
    }
}

/// `v * num / den`, rounded toward zero.
pub fn mul_div(v: i64, num: i64, den: i64) -> (r: i64)
    requires
        0 < den,
        0 <= num <= SCALE * 10,
        -SPEED_LIMIT * 10 <= v <= SPEED_LIMIT * 10,
    ensures
        r == trunc_div(v * num, den as int),
{
    proof {
        assert(-100_000_000_000_000 <= v * num <= 100_000_000_000_000) by (nonlinear_arith)
            requires
                0 <= num <= 10_000,
                -10_000_000_000 <= v <= 10_000_000_000,
        ;
    }
    let p: i64 = v * num;
    if p >= 0 {
        p / den
    } else {
        let q: i64 = (-p) / den;
        -q
    }
}

/// `r` is the least natural number whose square is at least `n`.
pub open spec fn is_ceil_sqrt(n: int, r: int) -> bool {
    &&& 0 <= r
    &&& r * r >= n
    &&& r == 0 || (r - 1) * (r - 1) < n
}

/// The least natural number whose square is at least `n`.
pub open spec fn ceil_sqrt(n: int) -> int {
    choose|r: int| is_ceil_sqrt(n, r)
}

/// Every natural number has a ceiling square root.
pub proof fn lemma_ceil_sqrt_exists(n: int)
    requires
        n >= 0,
    ensures
        is_ceil_sqrt(n, ceil_sqrt(n)),
    decreases n,
{
    if n == 0 {
        assert(is_ceil_sqrt(0, 0));
    } else {
        lemma_ceil_sqrt_exists(n - 1);
        let r = ceil_sqrt(n - 1);
        if r * r >= n {
            assert(is_ceil_sqrt(n, r));
        } else {
            assert((r + 1) * (r + 1) >= n) by (nonlinear_arith)
                requires
                    r * r >= n - 1,
                    r >= 0,
            ;
            assert(is_ceil_sqrt(n, r + 1));
        }
    }
}

/// At most one number is the ceiling square root of `n`.
pub proof fn lemma_ceil_sqrt_unique(n: int, r1: int, r2: int)
    requires
        is_ceil_sqrt(n, r1),
        is_ceil_sqrt(n, r2),
    ensures
        r1 == r2,
{
    if r1 < r2 {
        assert((r2 - 1) * (r2 - 1) >= r1 * r1) by (nonlinear_arith)
            requires
                0 <= r1 <= r2 - 1,
        ;
    } else if r2 < r1 {
        assert((r1 - 1) * (r1 - 1) >= r2 * r2) by (nonlinear_arith)
            requires
                0 <= r2 <= r1 - 1,
        ;
    }
}

/// Ceiling of the square root of `n`, by bisection.
pub fn ceil_sqrt_u64(n: u64) -> (r: u64)
    requires
        n <= 16_000_000_000_000_000_000,
    ensures
        is_ceil_sqrt(n as int, r as int),
        r == ceil_sqrt(n as int),
        r <= 4_000_000_000,
{
    let mut lo: u64 = 0;
    let mut hi: u64 = 4_000_000_000;
    assert(hi * hi >= n) by (nonlinear_arith)
        requires
            hi == 4_000_000_000,
            n <= 16_000_000_000_000_000_000,
    ;
    while lo < hi
        invariant
            lo <= hi <= 4_000_000_000,
            hi * hi >= n,
            lo == 0 || (lo - 1) * (lo - 1) < n,
        decreases hi - lo,
    {
        let mid: u64 = lo + (hi - lo) / 2;
        assert(mid * mid <= 16_000_000_000_000_000_000) by (nonlinear_arith)
            requires
                mid <= 4_000_000_000,
        ;
        if mid * mid >= n {
            hi = mid;
        } else {
            lo = mid + 1;
        }
    }
    proof {
        lemma_ceil_sqrt_unique(n as int, lo as int, ceil_sqrt(n as int));
    }
    lo
}

} // verus!
